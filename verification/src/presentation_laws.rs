//! What the native backend keeps while frames are under way.

use crate::connectors::NativeEvent;
use crate::desktop;
use crate::model::OutputId;
use crate::presentation;
use crate::presentation::{Prepared, Rendered, Retired, Surface};
use crate::ranking;
use crate::runtime::RenderRequest;
use vstd::prelude::*;

verus! {

/// A report on a frame other than the one that is waited for changes nothing.
pub proof fn stale_frames_change_nothing(
    state: presentation::NativeView,
    k: u64,
    frame_id: u64,
    now: u64,
)
    requires
        state.surfaces.contains_key(k) ==> (state.surfaces[k].pending matches Some(frame)
            ==> frame.frame_id != frame_id || !frame.queued),
    ensures
        state.retired(k, Retired::Frame(frame_id), now) == (
            state,
            None::<presentation::Shown>,
        ),
{
}

/// A frame is counted as shown once: when it has been, nothing is waited for any more.
pub proof fn frames_are_shown_once(
    state: presentation::NativeView,
    k: u64,
    retired: Retired,
    now: u64,
)
    ensures
        ({
            let (after, shown) = state.retired(k, retired, now);
            shown is Some ==> state.surfaces.contains_key(k) && after.surfaces[k].pending is None
                && after.retired(k, retired, now).1 is None
        }),
{
}

/// When the session is paused nothing is under way any more, and a change of power that was is
/// wanted again.
pub proof fn paused_sessions_keep_power_wishes(state: presentation::NativeView, k: u64)
    requires
        state.surfaces.contains_key(k),
    ensures
        state.session_paused().surfaces[k].idle(),
        state.surfaces[k].committing_power_mode is Some
            ==> state.session_paused().surfaces[k].requested_power_mode
            == state.surfaces[k].committing_power_mode,
        state.surfaces[k].committing_power_mode is None
            ==> state.session_paused().surfaces[k].requested_power_mode
            == state.surfaces[k].requested_power_mode,
        state.session_paused().scheduler.paused,
        !state.session_paused().session_active,
{
}

/// A fence is not waited for beyond its time: when it is looked at then, its frame is on its way
/// or drawn again.
pub proof fn fences_are_not_waited_for_forever(
    state: presentation::NativeView,
    k: u64,
    reached: bool,
    now: u64,
)
    requires
        state.surfaces[k].waiting_fence matches Some(fence) && fence.deadline <= now
            && fence.expires_at <= now,
        state.surfaces.contains_key(k),
    ensures
        state.fences_checked(k, reached, now).0.surfaces[k].waiting_fence is None,
        reached ==> state.fences_checked(k, reached, now).1 is Some,
{
}

/// A fence that is looked at again is looked at later than before, and at least once a frame.
pub proof fn fences_back_off(delay: u64, retrace: u64)
    requires
        delay <= retrace,
    ensures
        delay <= presentation::backed_off(delay, retrace) <= retrace,
{
}

/// A device that has failed has nothing under way on the outputs that it has.
pub proof fn failed_devices_are_idle(
    state: presentation::NativeView,
    device: u64,
    keys: Seq<u64>,
    n: int,
    now: u64,
    i: int,
)
    requires
        0 <= i < n <= keys.len(),
        forall|j: int| 0 <= j < keys.len() ==> state.surfaces.contains_key(#[trigger] keys[j]),
        state.surfaces[keys[i]].device == device,
    ensures
        ({
            let after = state.device_failed(device, keys, n, now).surfaces[keys[i]];
            after.pending is None && after.waiting_fence is None && after.exported_fence is None
        }),
    decreases n,
{
    if i < n - 1 {
        failed_devices_are_idle(state, device, keys, n - 1, now, i);
    }
}

/// An output is switched off only while nothing is under way on it.
pub proof fn busy_outputs_keep_their_power(
    state: presentation::NativeView,
    keys: Seq<u64>,
    n: int,
    i: int,
)
    requires
        0 <= i < keys.len(),
        0 <= n <= keys.len(),
        keys.no_duplicates(),
        !state.surfaces[keys[i]].idle(),
        forall|j: int| 0 <= j < keys.len() ==> state.surfaces.contains_key(#[trigger] keys[j])
            && keys[j] <= u32::MAX,
    ensures
        state.power_applied(keys, n).0.surfaces[keys[i]] == state.surfaces[keys[i]],
        !state.power_applied(keys, n).1.contains(presentation::output(keys[i])),
    decreases n,
{
    if n > 0 {
        busy_outputs_keep_their_power(state, keys, n - 1, i);
        let off = state.power_applied(keys, n - 1).1;
        let next = presentation::output(keys[n - 1]);
        assert(!off.push(next).contains(presentation::output(keys[i])) || keys[n - 1] == keys[i])
            by {
            if off.push(next).contains(presentation::output(keys[i])) {
                let j = off.push(next).index_of(presentation::output(keys[i]));
                if j < off.len() {
                    assert(off[j] == presentation::output(keys[i]));
                }
            }
        }
    }
}

/// Whether the outputs of a loop are kept under their own ids.
pub open spec fn keyed(state: presentation::NativeView) -> bool {
    &&& state.surfaces.dom().finite()
    &&& forall|k: u64| #[trigger] state.surfaces.contains_key(k) ==> k <= u32::MAX
}

proof fn known_keys(state: presentation::NativeView)
    requires
        state.surfaces.dom().finite(),
    ensures
        forall|i: int|
            0 <= i < state.keys().len() ==> state.surfaces.contains_key(#[trigger] state.keys()[i]),
        forall|k: u64| #[trigger]
            state.surfaces.contains_key(k) ==> state.keys().contains(k),
{
    let keys = state.keys();
    ranking::ranking_ranks(state.surfaces.dom(), |id: u64| 0);
    assert forall|i: int| 0 <= i < keys.len() implies state.surfaces.contains_key(
        #[trigger] keys[i],
    ) by {
        assert(keys.to_set().contains(keys[i]));
    }
    assert forall|k: u64| #[trigger] state.surfaces.contains_key(k) implies keys.contains(k) by {
        assert(keys.to_set().contains(k));
    }
}

proof fn loops_keep_outputs(
    state: presentation::NativeView,
    keys: Seq<u64>,
    n: int,
    device: u64,
    reached: Seq<OutputId>,
    now: u64,
)
    requires
        0 <= n <= keys.len(),
        forall|i: int| 0 <= i < keys.len() ==> state.surfaces.contains_key(#[trigger] keys[i]),
    ensures
        state.device_failed(device, keys, n, now).surfaces.dom() == state.surfaces.dom(),
        state.software_shown(keys, n, now).0.surfaces.dom() == state.surfaces.dom(),
        state.all_fences_checked(keys, n, reached, now).0.surfaces.dom() == state.surfaces.dom(),
        state.power_applied(keys, n).0.surfaces.dom() == state.surfaces.dom(),
    decreases n,
{
    let dom = state.surfaces.dom();
    if n > 0 {
        loops_keep_outputs(state, keys, n - 1, device, reached, now);
        let k = keys[n - 1];
        assert(dom.contains(k));
        assert(dom.insert(k) =~= dom);
        assert(state.device_failed(device, keys, n, now).surfaces.dom() =~= dom);
        assert(state.software_shown(keys, n, now).0.surfaces.dom() =~= dom);
        assert(state.all_fences_checked(keys, n, reached, now).0.surfaces.dom() =~= dom);
        assert(state.power_applied(keys, n).0.surfaces.dom() =~= dom);
    }
}

/// The outputs of a loop stay the same while frames come and go, while power is switched and while
/// the session is paused.
pub proof fn frames_keep_the_outputs(
    state: presentation::NativeView,
    k: u64,
    retired: Retired,
    frame: Prepared,
    taken: bool,
    request: RenderRequest,
    rendered: Rendered,
    lock_generation: Option<u64>,
    device: u64,
    reached: Seq<OutputId>,
    now: u64,
)
    requires
        keyed(state),
    ensures
        state.retired(k, retired, now).0.surfaces.dom() == state.surfaces.dom(),
        state.prepared(k, frame.frame_id).0.surfaces.dom() == state.surfaces.dom(),
        state.handed_over(frame, taken, now).surfaces.dom() == state.surfaces.dom(),
        state.drawn(request, rendered, lock_generation, now).0.surfaces.dom()
            == state.surfaces.dom(),
        state.rendering(now).0.surfaces == state.surfaces,
        state.session_paused().surfaces.dom() == state.surfaces.dom(),
        ({
            let n = state.keys().len() as int;
            &&& state.device_failed(device, state.keys(), n, now).surfaces.dom()
                == state.surfaces.dom()
            &&& state.software_shown(state.keys(), n, now).0.surfaces.dom() == state.surfaces.dom()
            &&& state.all_fences_checked(state.keys(), n, reached, now).0.surfaces.dom()
                == state.surfaces.dom()
            &&& state.power_applied(state.keys(), n).0.surfaces.dom() == state.surfaces.dom()
        }),
{
    let dom = state.surfaces.dom();
    known_keys(state);
    loops_keep_outputs(state, state.keys(), state.keys().len() as int, device, reached, now);
    assert(state.retired(k, retired, now).0.surfaces.dom() =~= dom);
    assert(state.prepared(k, frame.frame_id).0.surfaces.dom() =~= dom);
    assert(state.handed_over(frame, taken, now).surfaces.dom() =~= dom);
    assert(state.drawn(request, rendered, lock_generation, now).0.surfaces.dom() =~= dom);
    assert(state.session_paused().surfaces.dom() =~= dom);
}

/// An output is kept under its own id from when it is set up until it is gone.
pub proof fn outputs_are_kept_under_their_ids(
    state: presentation::NativeView,
    id: OutputId,
    surface: Surface,
    device: u64,
)
    requires
        keyed(state),
    ensures
        keyed(presentation::NativeView::fresh()),
        keyed(state.with_output(id, surface)),
        keyed(state.without_output(id)),
        keyed(state.unconnected(id)),
        keyed(state.without_device(device)),
{
    let after = state.without_device(device);
    assert(after.surfaces.dom().subset_of(state.surfaces.dom()));
    vstd::set_lib::lemma_set_subset_finite(state.surfaces.dom(), after.surfaces.dom());
}

/// When a device goes, what is on it goes with it, and nothing else.
pub proof fn devices_take_their_outputs(state: presentation::NativeView, device: u64, k: u64)
    ensures
        state.without_device(device).surfaces.contains_key(k) <==> state.surfaces.contains_key(k)
            && state.surfaces[k].device != device,
        state.without_device(device).surfaces.contains_key(k)
            ==> state.without_device(device).surfaces[k] == state.surfaces[k],
{
}

proof fn connectors_are_searched(
    state: presentation::NativeView,
    device: u64,
    connector: u64,
    keys: Seq<u64>,
    n: int,
)
    requires
        0 <= n <= keys.len(),
    ensures
        match state.connected_among(device, connector, keys, n) {
            Some(id) => exists|i: int|
                0 <= i < n && presentation::output(#[trigger] keys[i]) == id
                    && state.surfaces[keys[i]].device == device && state.surfaces[keys[i]].connector
                    == Some(connector),
            None => forall|i: int|
                0 <= i < n ==> !(state.surfaces[#[trigger] keys[i]].device == device
                    && state.surfaces[keys[i]].connector == Some(connector)),
        },
    decreases n,
{
    if n > 0 {
        connectors_are_searched(state, device, connector, keys, n - 1);
    }
}

/// An output that was set up on a free connector is the one that goes when its plug is pulled, and
/// with it goes all that its setting up has added. Where nothing drives the connector by then, the
/// output is on no connector any more.
pub proof fn plugs_are_told_apart(
    state: presentation::NativeView,
    d: desktop::DesktopView,
    id: OutputId,
    device: u64,
    connector: u64,
    retrace: u64,
)
    requires
        keyed(state),
        !state.surfaces.contains_key(id.0 as u64),
        state.unplugged(d, device, connector, true).2 is None,
    ensures
        ({
            let (with, taken) = state.set_up(d, id, device, connector, Some(retrace));
            let (without, _, gone) = with.unplugged(taken, device, connector, true);
            let (idle, _, left) = with.unplugged(taken, device, connector, false);
            &&& taken == d
            &&& gone == Some(id)
            &&& without.surfaces == state.surfaces
            &&& left == Some(id)
            &&& idle.surfaces[id.0 as u64].connector is None
            &&& idle.scheduler == without.scheduler
        }),
{
    let (with, taken) = state.set_up(d, id, device, connector, Some(retrace));
    let k = id.0 as u64;
    known_keys(state);
    known_keys(with);
    let (old_keys, keys) = (state.keys(), with.keys());
    connectors_are_searched(state, device, connector, old_keys, old_keys.len() as int);
    connectors_are_searched(with, device, connector, keys, keys.len() as int);
    assert(with.surfaces.contains_key(k));
    let at = keys.index_of(k);
    assert(keys[at] == k);
    assert forall|i: int|
        0 <= i < keys.len() && with.surfaces[#[trigger] keys[i]].device == device
            && with.surfaces[keys[i]].connector == Some(connector) implies keys[i] == k by {
        assert(with.surfaces.contains_key(keys[i]));
        if keys[i] != k {
            assert(state.surfaces.contains_key(keys[i]));
            let j = old_keys.index_of(keys[i]);
            assert(old_keys[j] == keys[i]);
        }
    }
    assert(with.surfaces[keys[at]] == Surface::connected(device, connector, retrace));
    let found = with.connected_among(device, connector, keys, keys.len() as int);
    assert(found == Some(id)) by {
        if let Some(other) = found {
            let i = choose|i: int|
                0 <= i < keys.len() && presentation::output(#[trigger] keys[i]) == other
                    && with.surfaces[keys[i]].device == device && with.surfaces[keys[i]].connector
                    == Some(connector);
            assert(keys[i] == k);
        }
    }
    assert(with.unplugged(taken, device, connector, true).0.surfaces =~= state.surfaces);
}

/// While the session is paused no event has a device set up or looked at: one that comes waits
/// until the session is taken up again.
pub proof fn paused_sessions_leave_devices_alone(
    state: presentation::NativeView,
    d: desktop::DesktopView,
    device: u64,
    now: u64,
)
    requires
        !state.session_active,
    ensures
        state.stepped(d, NativeEvent::DeviceAdded(device), now).2 is Nothing,
        state.stepped(d, NativeEvent::DeviceAdded(device), now).0.deferred.contains(device),
        state.stepped(d, NativeEvent::DeviceChanged(device), now).2 is Nothing,
{
}

} // verus!
