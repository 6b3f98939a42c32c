//! When the loops of the two backends wait, draw and try again, and what they lose.

use crate::event_queue;
use crate::event_queue::{AdmissionView, SourceEvent};
use crate::model::OutputId;
use crate::nested;
use crate::nested::NestedLoop;
use crate::presentation;
use crate::presentation::{PendingFrame, Rendered, Surface};
use crate::runtime;
use crate::runtime::{OutputPhase, RenderRequest, RepaintReasons};
use crate::socket;
use crate::socket::{Found, Probe, ProbeStep, SocketIdentity, StaleStep};
use vstd::prelude::*;

verus! {

/// A loop waits until the time that was set, and not at all when it has passed or something is
/// to be done. Without a time it waits for an event.
pub proof fn waits_end_at_the_deadline(busy: bool, deadline: Option<u64>, now: u64)
    ensures
        busy ==> nested::patience(busy, deadline, now) == Some(0u64),
        !busy && deadline is None ==> nested::patience(busy, deadline, now) is None,
        !busy && deadline is Some ==> ({
            let wait = nested::patience(busy, deadline, now);
            &&& wait is Some
            &&& deadline->0 <= now ==> wait->0 == 0
            &&& deadline->0 > now ==> now + wait->0 == deadline->0
        }),
{
}

/// A time is so much later than another, and the last there is where there is none so late.
pub proof fn later_times_are_later(now: u64, delay: u64)
    ensures
        now <= nested::later(now, delay),
        nested::later(now, delay) < u64::MAX ==> nested::later(now, delay) - now == delay,
        now + delay <= u64::MAX ==> nested::later(now, delay) == now + delay,
        nested::come(Some(now), nested::later(now, delay)),
        delay > 0 && now < u64::MAX ==> !nested::come(Some(nested::later(now, delay)), now),
{
}

/// There is no earliest time only where there is none at all.
pub proof fn some_time_is_soonest(times: Seq<Option<u64>>)
    ensures
        nested::soonest(times) is None <==> forall|i: int|
            0 <= i < times.len() ==> (#[trigger] times[i]) is None,
    decreases times.len(),
{
    if times.len() > 0 {
        let rest = times.drop_last();
        some_time_is_soonest(rest);
        let end = times.len() - 1;
        assert(times[end] == times.last());
        assert(forall|i: int| 0 <= i < end ==> #[trigger] times[i] == rest[i]);
        assert(forall|i: int| 0 <= i < end ==> #[trigger] rest[i] == times[i]);
    }
}

/// A frame that could not be shown is tried again after the wait; then the wait is twice as
/// long, up to its bound. The loop is told when the time has come, once.
pub proof fn failed_frames_come_again(state: NestedLoop, timer: Option<u64>, now: u64, then: u64)
    requires
        now + state.frame_retry_delay <= u64::MAX,
        state.frame_retry_delay <= nested::FRAME_RETRY_MAX,
    ensures
        ({
            let failed = state.after_failure(now);
            let at = now + state.frame_retry_delay;
            &&& failed.frame_retry_deadline == Some(at as u64)
            &&& !failed.has_presented
            &&& 2 * state.frame_retry_delay <= nested::FRAME_RETRY_MAX ==> failed.frame_retry_delay
                == 2 * state.frame_retry_delay
            &&& 2 * state.frame_retry_delay > nested::FRAME_RETRY_MAX ==> failed.frame_retry_delay
                == nested::FRAME_RETRY_MAX
            &&& failed.scene_dirty == state.scene_dirty
            &&& then >= at ==> failed.at_start(timer, then).1 && failed.at_start(
                timer,
                then,
            ).0.frame_retry_deadline is None
            &&& then < at ==> failed.at_start(timer, then).0 == failed && (failed.at_start(
                timer,
                then,
            ).1 <==> timer is Some && timer->0 <= then)
            &&& state.after_frame().frame_retry_deadline is None
            &&& !state.after_frame().scene_dirty && state.after_frame().has_presented
        }),
{
}

/// A frame is drawn only when the host lets it be, and never asked for and drawn in one round.
/// What the host allowed is used up by that.
pub proof fn frames_wait_for_the_host(state: NestedLoop, scene_changed: bool)
    ensures
        ({
            let (after, round) = state.at_end(scene_changed);
            &&& round.render == state.present_ready
            &&& !(round.render && round.request_redraw)
            &&& !after.present_ready
            &&& round.request_redraw ==> state.host_configured && after.scene_dirty
            &&& after.scene_dirty == (state.scene_dirty || scene_changed)
        }),
{
}

/// A window that gets another size, or a size at all, is drawn afresh; one without an area is
/// not drawn. A size that is not new changes nothing.
pub proof fn new_sizes_are_drawn_afresh(state: NestedLoop, width: i32, height: i32)
    ensures
        ({
            let (after, changed) = state.after_resize(width, height);
            let area = width > 0 && height > 0;
            let same = width == state.tracked_width && height == state.tracked_height && area
                == state.host_configured;
            &&& same ==> after == state && !changed
            &&& !same ==> after.host_configured == area && changed == area && !after.has_presented
                && !after.present_ready
            &&& after.scene_dirty == state.scene_dirty
        }),
        ({
            let (after, changed) = state.with_size(width, height);
            &&& after.tracked_width == width && after.tracked_height == height
            &&& changed == (width != state.tracked_width || height != state.tracked_height)
        }),
{
}

/// A shutdown that was begun is over as soon as nobody is to be told anything, and at the latest
/// when its time is up; one that was not is not.
pub proof fn shutdowns_come_to_an_end(deadline: Option<u64>, pending: bool, now: u64)
    ensures
        deadline is None ==> !nested::drained(deadline, pending, now),
        deadline is Some && !pending ==> nested::drained(deadline, pending, now),
        deadline is Some && pending ==> nested::drained(deadline, pending, now) == (deadline->0
            <= now),
{
}

/// Whether an event says that something is ready or changed, of which one says as much as two.
pub open spec fn says_it_all(event: SourceEvent) -> bool {
    event is Redraw || event is WaylandReady || event is IpcReady || event is ConfigChanged
}

proof fn first_motion(events: Seq<SourceEvent>, from: int)
    requires
        0 <= from <= events.len(),
    ensures
        match event_queue::first_lossy(events, from) {
            Some(i) => from <= i < events.len() && events[i] is Motion && forall|j: int|
                from <= j < i ==> !((#[trigger] events[j]) is Motion),
            None => forall|j: int| from <= j < events.len() ==> !((#[trigger] events[j]) is Motion),
        },
    decreases events.len() - from,
{
    if from < events.len() {
        first_motion(events, from + 1);
    }
}

/// An event joins the queue of the nested backend at its end. It does not where the like waits
/// already. Where the queue is full the oldest motion leaves it, and a motion stays out where
/// there is none to leave.
pub proof fn nested_events_queue_up(events: Seq<SourceEvent>, event: SourceEvent)
    ensures
        ({
            let after = event_queue::nested_with(events, event);
            let full = events.len() >= event_queue::MAX_QUEUED_EVENTS;
            let moves = exists|i: int| 0 <= i < events.len() && (#[trigger] events[i]) is Motion;
            &&& says_it_all(event) && events.contains(event) ==> after == events
            &&& !(says_it_all(event) && events.contains(event)) && !full ==> after == events.push(
                event,
            )
            &&& !(says_it_all(event) && events.contains(event)) && full && !moves ==> after == (
            if event is Motion {
                events
            } else {
                events.push(event)
            })
            &&& !(says_it_all(event) && events.contains(event)) && full && moves ==> exists|i: int|
                0 <= i < events.len() && (#[trigger] events[i]) is Motion && after == events.remove(
                    i,
                ).push(event) && forall|j: int|
                    0 <= j < i ==> !((#[trigger] events[j]) is Motion)
        }),
{
    first_motion(events, 0);
}

/// An event joins the queue of the native backend at its end, unless the like waits already, but
/// every redraw counts. Where the queue is full a motion is dropped; for any other event the
/// oldest are dealt with at once, in their order, as many as in one go.
pub proof fn native_events_queue_up(events: Seq<SourceEvent>, event: SourceEvent)
    ensures
        ({
            let (after, admission) = event_queue::native_with(events, event);
            let full = events.len() >= event_queue::MAX_QUEUED_EVENTS;
            let told = says_it_all(event) && !(event is Redraw) && events.contains(event);
            &&& told || (full && event is Motion) ==> after == events && admission
                == AdmissionView::Dropped
            &&& !told && !full ==> after == events.push(event) && admission == (
            AdmissionView::Queued { reduced: Seq::empty() })
            &&& !told && full && !(event is Motion) ==> {
                &&& admission is Queued
                &&& admission->reduced + after == events.push(event)
                &&& admission->reduced.len() == event_queue::MAX_EVENTS_PER_BATCH
            }
        }),
        event_queue::batch(events) <= event_queue::MAX_EVENTS_PER_BATCH,
        event_queue::batch(events) < event_queue::MAX_EVENTS_PER_BATCH ==> event_queue::batch(
            events,
        ) == events.len(),
        events.take(event_queue::batch(events)) + events.skip(event_queue::batch(events)) == events,
{
    let n = event_queue::batch(events);
    assert(events.take(n) + events.skip(n) =~= events);
    let (after, admission) = event_queue::native_with(events, event);
    if events.len() >= event_queue::MAX_QUEUED_EVENTS && !(event is Motion) && admission is Queued {
        assert(admission->reduced + after =~= events.push(event));
    }
}

/// A server takes the place of a socket only where nobody answers on it, and makes room for its
/// directory only where there is nothing. A socket that somebody answers on is in use; whatever
/// is neither socket nor directory is left alone.
pub proof fn files_of_others_are_left_alone(found: Found, probe: Probe, identity: SocketIdentity)
    ensures
        socket::stale(found) is Done <==> found is Nothing,
        socket::stale(found) is Probe <==> found is Socket,
        socket::stale(found) is Unsafe <==> found is Directory || found is Other,
        found matches Found::Socket(own) ==> socket::stale(found) == StaleStep::Probe(own),
        socket::probed(probe, identity) is Remove <==> probe is Refused,
        socket::probed(probe, identity) is InUse <==> probe is Connected,
        socket::probed(probe, identity) is Failed <==> probe is Failed,
        probe is Refused ==> socket::probed(probe, identity) == ProbeStep::Remove(identity),
        socket::directory(found) is Create <==> found is Nothing,
        socket::directory(found) is Restrict <==> found is Directory,
        socket::directory(found) is Unsafe <==> found is Socket || found is Other,
{
}

/// A frame may begin when it was asked for at once or its time has come, and its output is
/// there; the reasons for it are those that were ever given.
pub proof fn frames_begin_in_time(
    state: runtime::SchedulerView,
    now: u64,
    i: int,
    one: RepaintReasons,
    other: RepaintReasons,
)
    requires
        0 <= i < state.ready.len(),
        state.outputs.contains_key(state.ready[i]),
    ensures
        ({
            let schedule = state.outputs[state.ready[i]];
            &&& schedule.deadline is None ==> state.eligible(now, i)
            &&& schedule.deadline is Some ==> (state.eligible(now, i) <==> schedule.deadline->0
                <= now)
            &&& schedule.begun().phase == OutputPhase::Rendering
            &&& schedule.begun().active_frame_id == Some(schedule.next_frame_id)
            &&& schedule.begun().reasons.0 == 0 && schedule.begun().deadline is None
            &&& schedule.begun().dirty_after_present == schedule.dirty_after_present
            &&& schedule.begun().next_frame_id != schedule.next_frame_id
                && schedule.begun().next_frame_id > 0
        }),
        one.with(other).has(one) && one.with(other).has(other),
        one.with(other) == other.with(one),
        one.with(one) == one,
        one.with(other) == one <==> one.has(other),
{
    let a = one.0;
    let b = other.0;
    assert((a | b) & a == a) by (bit_vector);
    assert((a | b) & b == b) by (bit_vector);
    assert(a | b == b | a) by (bit_vector);
    assert(a | a == a) by (bit_vector);
    assert((a | b == a) == (a & b == b)) by (bit_vector);
}

/// Of several wishes for the power of an output the last counts, and outputs that nobody wishes
/// anything of keep theirs.
pub proof fn the_last_wish_counts(
    state: presentation::NativeView,
    requests: Seq<(OutputId, bool)>,
    n: int,
    i: int,
)
    requires
        0 <= i < n <= requests.len(),
        forall|j: int| i < j < n ==> (#[trigger] requests[j]).0 != requests[i].0,
    ensures
        ({
            let (after, unknown) = state.power_wanted(requests, n);
            let k = requests[i].0.0 as u64;
            &&& state.surfaces.contains_key(k) ==> after.surfaces.contains_key(k)
                && after.surfaces[k].requested_power_mode == Some(requests[i].1)
                && after.surfaces[k].pending == state.surfaces[k].pending
            &&& !state.surfaces.contains_key(k) ==> unknown.contains(requests[i].0)
                && !after.surfaces.contains_key(k)
        }),
    decreases n,
{
    wishes_add_no_outputs(state, requests, n - 1);
    let (before, unknown) = state.power_wanted(requests, n - 1);
    let (after, more) = state.power_wanted(requests, n);
    if i < n - 1 {
        the_last_wish_counts(state, requests, n - 1, i);
        assert(requests[n - 1].0 != requests[i].0);
        if unknown.contains(requests[i].0) {
            let j = unknown.index_of(requests[i].0);
            assert(more[j] == requests[i].0);
        }
    } else {
        if !state.surfaces.contains_key(requests[i].0.0 as u64) {
            assert(more[more.len() - 1] == requests[i].0);
        }
    }
}

proof fn wishes_add_no_outputs(
    state: presentation::NativeView,
    requests: Seq<(OutputId, bool)>,
    n: int,
)
    requires
        n <= requests.len(),
    ensures
        state.power_wanted(requests, n).0.surfaces.dom() == state.surfaces.dom(),
        forall|k: u64| #[trigger]
            state.surfaces.contains_key(k) ==> state.power_wanted(requests, n).0.surfaces[k].pending
                == state.surfaces[k].pending,
    decreases n,
{
    if n > 0 {
        wishes_add_no_outputs(state, requests, n - 1);
        assert(state.power_wanted(requests, n).0.surfaces.dom() =~= state.surfaces.dom());
    }
}

/// Whether a list of outputs has one.
pub open spec fn lists(list: Seq<OutputId>, id: OutputId) -> bool {
    list.contains(id)
}

/// An output is switched off where that is wanted, its device may be used and nothing is under
/// way on it; where power is wanted it comes with the next frame. All others keep their wishes.
pub proof fn idle_outputs_get_their_power(
    state: presentation::NativeView,
    keys: Seq<u64>,
    n: int,
    i: int,
)
    requires
        0 <= i < n <= keys.len(),
        keys.no_duplicates(),
        forall|j: int| 0 <= j < keys.len() ==> state.surfaces.contains_key(#[trigger] keys[j]),
    ensures
        ({
            let (after, off) = state.power_applied(keys, n);
            let before = state.surfaces[keys[i]];
            let now = after.surfaces[keys[i]];
            let free = state.devices.contains_key(before.device) && state.devices[before.device]
                && before.pending is None && before.waiting_fence is None
                && before.exported_fence is None && before.committing_power_mode is None;
            &&& !free || before.requested_power_mode is None ==> now == before
            &&& free && before.requested_power_mode == Some(true) ==> now.committing_power_mode
                == Some(true) && now.requested_power_mode is None
            &&& free && before.requested_power_mode == Some(false) ==> now.requested_power_mode
                is None && now.committing_power_mode is None && lists(
                off,
                presentation::output(keys[i]),
            )
        }),
    decreases n,
{
    powers_of_others_stay(state, keys, n - 1);
    let (before, list) = state.power_applied(keys, n - 1);
    let (after, off) = state.power_applied(keys, n);
    assert(state.surfaces.contains_key(keys[i]));
    if i < n - 1 {
        idle_outputs_get_their_power(state, keys, n - 1, i);
        assert(keys[i] != keys[n - 1]);
        if list.contains(presentation::output(keys[i])) {
            let j = list.index_of(presentation::output(keys[i]));
            assert(off[j] == presentation::output(keys[i]));
        }
    } else {
        assert(before.surfaces[keys[i]] == state.surfaces[keys[i]]);
        if off.len() > list.len() {
            assert(off[list.len() as int] == presentation::output(keys[i]));
        }
    }
}

proof fn powers_of_others_stay(state: presentation::NativeView, keys: Seq<u64>, n: int)
    requires
        n <= keys.len(),
        keys.no_duplicates(),
    ensures
        state.power_applied(keys, n).0.devices == state.devices,
        forall|m: int|
            0 <= m < keys.len() && n <= m ==> state.power_applied(keys, n).0.surfaces[
                #[trigger] keys[m]
            ] == state.surfaces[keys[m]],
    decreases n,
{
    if n > 0 {
        powers_of_others_stay(state, keys, n - 1);
        assert forall|m: int| 0 <= m < keys.len() && n <= m implies state.power_applied(
            keys,
            n,
        ).0.surfaces[#[trigger] keys[m]] == state.surfaces[keys[m]] by {
            assert(keys[m] != keys[n - 1]);
        }
    }
}

/// A frame is handed over only for the request that it was drawn for, with what was current when
/// it was drawn. While a fence of its own drawing has not been reached it waits.
pub proof fn frames_are_handed_over_when_done(
    state: presentation::NativeView,
    request: RenderRequest,
    rendered: Rendered,
    lock_generation: Option<u64>,
    now: u64,
)
    ensures
        ({
            let (after, prepared) = state.drawn(request, rendered, lock_generation, now);
            let k = request.output.0 as u64;
            &&& prepared matches Some(frame) ==> {
                &&& frame.output == request.output && frame.frame_id == request.frame_id
                    && frame.lock_generation == lock_generation
                &&& state.surfaces.contains_key(k) && frame.power_mode
                    == state.surfaces[k].committing_power_mode
                &&& rendered is Drawn
                &&& state.scheduler.outputs.contains_key(k) && state.scheduler.outputs[k].phase
                    == OutputPhase::Rendering && state.scheduler.outputs[k].active_frame_id
                    == Some(request.frame_id)
                &&& after.scheduler.outputs[k].phase == OutputPhase::AwaitingPresentation
                &&& !rendered->Drawn_0.needed || !rendered->Drawn_0.composed || (
                rendered->Drawn_0.reached && rendered->Drawn_0.exported is None)
            }
            &&& rendered is Drawn && state.surfaces.contains_key(k) && rendered->Drawn_0.needed
                && rendered->Drawn_0.composed && rendered->Drawn_0.exported == Some(true)
                ==> after.surfaces[k].exported_fence is Some
                && after.surfaces[k].exported_fence->0.frame_id == request.frame_id
            &&& rendered is Drawn && state.surfaces.contains_key(k) && rendered->Drawn_0.needed
                && rendered->Drawn_0.composed && rendered->Drawn_0.exported is None
                && !rendered->Drawn_0.reached ==> after.surfaces[k].waiting_fence is Some
                && after.surfaces[k].waiting_fence->0.frame_id == request.frame_id
                && after.surfaces[k].waiting_fence->0.lock_generation == lock_generation
                && after.surfaces[k].waiting_fence->0.power_mode
                == state.surfaces[k].committing_power_mode
        }),
{
}

/// A frame that has been shown is told of as it was handed over, and a change of power that came
/// with it is done: an output without power is drawn no more.
pub proof fn shown_frames_settle_the_power(
    state: presentation::NativeView,
    k: u64,
    frame: PendingFrame,
)
    requires
        state.surfaces.contains_key(k),
        k <= u32::MAX,
    ensures
        ({
            let (after, shown) = state.showing(k, frame);
            let awaited = state.scheduler.outputs.contains_key(k)
                && state.scheduler.outputs[k].phase == OutputPhase::AwaitingPresentation
                && state.scheduler.outputs[k].active_frame_id == Some(frame.frame_id);
            &&& shown is Some <==> awaited
            &&& !awaited ==> after == state
            &&& shown matches Some(told) ==> {
                &&& told.output.0 == k && told.frame_id == frame.frame_id
                    && told.lock_generation == frame.lock_generation && told.power_mode
                    == frame.power_mode
                &&& frame.power_mode is Some ==> after.surfaces[k].committing_power_mode is None
                &&& frame.power_mode is None ==> after.surfaces == state.surfaces
                &&& frame.power_mode == Some(false) ==> !after.scheduler.outputs.contains_key(k)
                &&& frame.power_mode != Some(false) ==> after.scheduler.outputs.contains_key(k)
                    && after.scheduler.outputs[k].active_frame_id is None
            }
        }),
{
}

/// The loop is woken no later than anything that has a time: what a frame counts as shown at,
/// when a fence is looked at, the shutdown, and what the others wait for.
pub proof fn loops_wake_in_time(
    state: presentation::NativeView,
    ipc: Option<u64>,
    timer: Option<u64>,
    input_service: Option<u64>,
    locked: bool,
    i: int,
)
    ensures
        ({
            let at = state.soonest_deadline(ipc, timer, input_service, locked);
            &&& ipc is Some ==> at is Some && at->0 <= ipc->0
            &&& timer is Some ==> at is Some && at->0 <= timer->0
            &&& state.shutdown_deadline is Some ==> at is Some && at->0
                <= state.shutdown_deadline->0
            &&& input_service is Some && !locked ==> at is Some && at->0 <= input_service->0
            &&& state.scheduler.earliest() is Some ==> at is Some && at->0
                <= state.scheduler.earliest()->0
            &&& 0 <= i < state.keys().len() ==> ({
                let surface = state.surfaces[state.keys()[i]];
                &&& surface.pending matches Some(frame) ==> frame.deadline matches Some(due)
                    ==> at is Some && at->0 <= due
                &&& surface.waiting_fence matches Some(fence) ==> at is Some && at->0
                    <= fence.deadline
                &&& surface.exported_fence matches Some(fence) ==> at is Some && at->0
                    <= fence.deadline
            })
        }),
{
    let shown = state.software_deadlines();
    let fences = state.fence_deadlines(state.keys(), state.keys().len() as int);
    let all = seq![
        ipc,
        timer,
        state.scheduler.earliest(),
        nested::soonest(shown),
        nested::soonest(fences),
        state.shutdown_deadline,
        if locked {
            None
        } else {
            input_service
        },
    ];
    assert forall|j: int| 0 <= j < all.len() && (#[trigger] all[j]) is Some implies nested::soonest(
        all,
    ) is Some && nested::soonest(all)->0 <= all[j]->0 by {
        nested::soonest_is_first(all, j);
    }
    assert(all[0] == ipc && all[1] == timer && all[2] == state.scheduler.earliest());
    assert(all[3] == nested::soonest(shown) && all[4] == nested::soonest(fences));
    assert(all[5] == state.shutdown_deadline);
    assert(!locked ==> all[6] == input_service);
    if 0 <= i < state.keys().len() {
        let surface = state.surfaces[state.keys()[i]];
        if surface.pending is Some && surface.pending->0.deadline is Some {
            assert(shown[i] == surface.pending->0.deadline);
            nested::soonest_is_first(shown, i);
        }
        fences_are_listed(state, state.keys(), state.keys().len() as int, i);
        if surface.waiting_fence is Some {
            nested::soonest_is_first(fences, 2 * i);
        }
        if surface.exported_fence is Some {
            nested::soonest_is_first(fences, 2 * i + 1);
        }
    }
}

proof fn fences_are_listed(state: presentation::NativeView, keys: Seq<u64>, n: int, i: int)
    requires
        0 <= i < n <= keys.len(),
    ensures
        ({
            let list = state.fence_deadlines(keys, n);
            let surface = state.surfaces[keys[i]];
            &&& list.len() == 2 * n
            &&& surface.waiting_fence matches Some(fence) ==> list[2 * i] == Some(fence.deadline)
            &&& surface.exported_fence matches Some(fence) ==> list[2 * i + 1] == Some(
                fence.deadline,
            )
        }),
    decreases n,
{
    if i < n - 1 {
        fences_are_listed(state, keys, n - 1, i);
    } else {
        fences_are_counted(state, keys, n - 1);
    }
}

proof fn fences_are_counted(state: presentation::NativeView, keys: Seq<u64>, n: int)
    requires
        0 <= n <= keys.len(),
    ensures
        state.fence_deadlines(keys, n).len() == 2 * n,
    decreases n,
{
    if n > 0 {
        fences_are_counted(state, keys, n - 1);
    }
}

/// What is begun is drawn, in the order in which it was begun, where its output is still there;
/// what is not there is scheduled no more.
pub proof fn begun_frames_are_drawn(
    state: presentation::NativeView,
    scheduler: runtime::SchedulerView,
    requests: Seq<RenderRequest>,
    n: int,
)
    requires
        0 <= n <= requests.len(),
    ensures
        state.routed(scheduler, requests, n).1 == requests.take(n).filter(
            |request: RenderRequest| state.surfaces.contains_key(request.output.0 as u64),
        ),
        forall|i: int|
            0 <= i < n && !state.surfaces.contains_key((#[trigger] requests[i]).output.0 as u64)
                ==> !state.routed(scheduler, requests, n).0.outputs.contains_key(
                requests[i].output.0 as u64,
            ),
    decreases n,
{
    reveal(Seq::filter);
    if n > 0 {
        begun_frames_are_drawn(state, scheduler, requests, n - 1);
        assert(requests.take(n).drop_last() =~= requests.take(n - 1));
        assert(requests.take(n).last() == requests[n - 1]);
    }
}

/// An output that was set up is drawn whole before long, and has nothing under way.
pub proof fn new_outputs_are_drawn_whole(
    state: presentation::NativeView,
    id: OutputId,
    device: u64,
    connector: u64,
    retrace: u64,
)
    requires
        !state.scheduler.outputs.contains_key(id.0 as u64),
        !state.scheduler.paused,
    ensures
        ({
            let after = state.with_output(id, Surface::connected(device, connector, retrace));
            let k = id.0 as u64;
            &&& after.surfaces.contains_key(k)
            &&& after.surfaces[k].device == device && after.surfaces[k].connector == Some(connector)
                && after.surfaces[k].retrace == retrace
            &&& after.surfaces[k].pending is None && after.surfaces[k].waiting_fence is None
                && after.surfaces[k].exported_fence is None
            &&& after.scheduler.outputs.contains_key(k)
            &&& after.scheduler.outputs[k].phase == OutputPhase::Scheduled
            &&& after.scheduler.outputs[k].reasons.has(RepaintReasons(32))
            &&& after.scheduler.outputs[k].deadline is None
            &&& after.scheduler.ready.last() == k
        }),
{
    assert(0u8 | 32 == 32 && 32u8 & 32 == 32) by (bit_vector);
}

} // verus!
