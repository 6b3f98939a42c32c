//! What holds of repaint scheduling over whole runs: the ids of frames follow each other, no
//! request puts off earlier work, a frame that is done is followed by what came up since, and an
//! output that is gone is served no more.

use crate::model::OutputId;
use crate::runtime;
use crate::runtime::{OutputPhase, OutputSchedule, RepaintReasons};
use crate::runtime_laws;
use vstd::prelude::*;

verus! {

/// Something that is done to the scheduler.
pub enum Step {
    Add(OutputId),
    Remove(OutputId),
    Request { output: OutputId, reason: RepaintReasons, deadline: Option<u64> },
    Begin { now: u64, budget: usize },
    Submitted { output: OutputId, frame_id: u64 },
    Presented { output: OutputId, frame_id: u64 },
    Failed { output: OutputId, frame_id: u64, deadline: Option<u64> },
    Pause,
    Resume,
}

pub open spec fn after_step(s: runtime::SchedulerView, step: Step) -> runtime::SchedulerView {
    match step {
        Step::Add(output) => s.added(output),
        Step::Remove(output) => s.removed(output),
        Step::Request { output, reason, deadline } => s.requested(output, reason, deadline),
        Step::Begin { now, budget } => s.begun(now, budget).0,
        Step::Submitted { output, frame_id } => s.submitted(output, frame_id).0,
        Step::Presented { output, frame_id } => s.presented(output, frame_id).0,
        Step::Failed { output, frame_id, deadline } => s.failed(output, frame_id, deadline).0,
        Step::Pause => s.pausing(),
        Step::Resume => s.resuming(),
    }
}

/// The scheduler after the first `n` of some steps.
pub open spec fn after_steps(s: runtime::SchedulerView, steps: Seq<Step>, n: int) -> runtime::SchedulerView
    decreases n,
{
    if n <= 0 {
        s
    } else {
        after_step(after_steps(s, steps, n - 1), steps[n - 1])
    }
}

/// Whether every request has a reason.
pub open spec fn reasoned(steps: Seq<Step>) -> bool {
    forall|i: int|
        0 <= i < steps.len() ==> ((#[trigger] steps[i]) matches Step::Request { reason, .. }
            ==> reason.0 != 0)
}

/// Whether deadlines and immediate work of an output go together: work that is scheduled, or has
/// come up since a frame began, has a deadline or is immediate, and where there is none there is
/// neither. No frame has the id zero.
pub open spec fn timely(s: OutputSchedule) -> bool {
    &&& s.next_frame_id >= 1
    &&& s.active_frame_id != Some(0u64)
    &&& s.dirty_immediate ==> s.deadline is None
    &&& match s.phase {
        OutputPhase::Idle => !s.immediate_pending && !s.dirty_immediate && s.deadline is None,
        OutputPhase::Scheduled => {
            &&& s.immediate_pending <==> s.deadline is None
            &&& !s.dirty_immediate
            &&& s.reasons.0 != 0
        },
        OutputPhase::Paused => !s.immediate_pending,
        _ => {
            &&& !s.immediate_pending
            &&& s.dirty_after_present.0 == 0 <==> !s.dirty_immediate && s.deadline is None
        },
    }
}

/// Whether the scheduler is consistent and its outputs are timely.
pub open spec fn orderly(s: runtime::SchedulerView) -> bool {
    &&& s.outputs.dom().finite()
    &&& runtime_laws::sound(s)
    &&& forall|k: u64| #[trigger] s.outputs.contains_key(k) ==> timely(s.outputs[k])
}

proof fn queues_are_short(s: runtime::SchedulerView)
    requires
        runtime_laws::sound(s),
    ensures
        s.ready.len() <= u64::MAX,
{
    let ids = s.ready.to_set();
    let range = vstd::set_lib::set_int_range(0, 0x1_0000_0000);
    let wide = |k: u64| k as int;
    s.ready.unique_seq_to_set();
    vstd::set_lib::lemma_int_range(0, 0x1_0000_0000);
    vstd::set_lib::lemma_map_size(ids, ids.map(wide), wide);
    assert forall|x: int| #[trigger] ids.map(wide).contains(x) implies range.contains(x) by {
        let k = choose|k: u64| ids.contains(k) && wide(k) == x;
        assert(s.ready.contains(k));
        assert(s.outputs.contains_key(k));
    }
    vstd::set_lib::lemma_len_subset(ids.map(wide), range);
}

proof fn joined_reasons(a: RepaintReasons, b: RepaintReasons)
    ensures
        b.0 != 0 ==> a.with(b).0 != 0,
        a.0 != 0 ==> a.with(b).0 != 0,
        a.with(RepaintReasons(32)).0 != 0,
        RepaintReasons(0).with(b) == b,
        a.with(RepaintReasons(0)) == a,
{
    let (x, y) = (a.0, b.0);
    assert(y != 0 ==> x | y != 0) by (bit_vector);
    assert(x != 0 ==> x | y != 0) by (bit_vector);
    assert(x | 32u8 != 0) by (bit_vector);
    assert(0u8 | y == y) by (bit_vector);
    assert(x | 0u8 == x) by (bit_vector);
}

proof fn schedules_stay_timely(
    s: OutputSchedule,
    reason: RepaintReasons,
    deadline: Option<u64>,
)
    requires
        timely(s),
        runtime_laws::consistent(s),
    ensures
        reason.0 != 0 ==> timely(s.requested(reason, deadline)),
        s.phase == OutputPhase::Scheduled ==> timely(s.begun()),
        s.phase == OutputPhase::Rendering ==> timely(
            OutputSchedule { phase: OutputPhase::AwaitingPresentation, ..s },
        ),
        s.phase == OutputPhase::AwaitingPresentation ==> timely(s.followed_up()),
        s.phase == OutputPhase::AwaitingPresentation || s.phase == OutputPhase::Rendering ==> timely(
            s.to_retry(deadline).followed_up(),
        ),
        timely(s.paused()),
        timely(s.resumed()),
{
    joined_reasons(s.reasons, reason);
    joined_reasons(s.dirty_after_present, reason);
}

/// A step keeps the scheduler orderly, if it is no request without a reason.
proof fn steps_stay_orderly(s: runtime::SchedulerView, step: Step)
    requires
        orderly(s),
        step matches Step::Request { reason, .. } ==> reason.0 != 0,
    ensures
        orderly(after_step(s, step)),
{
    let after = after_step(s, step);
    queues_are_short(s);
    match step {
        Step::Add(output) => {
            runtime_laws::single_steps_stay_sound(s, output, RepaintReasons(0), None, 0);
        },
        Step::Remove(output) => {
            runtime_laws::single_steps_stay_sound(s, output, RepaintReasons(0), None, 0);
        },
        Step::Request { output, reason, deadline } => {
            let k = output.0 as u64;
            runtime_laws::single_steps_stay_sound(s, output, reason, deadline, 0);
            if s.outputs.contains_key(k) {
                schedules_stay_timely(s.outputs[k], reason, deadline);
            }
        },
        Step::Begin { now, budget } => {
            runtime_laws::beginning_serves(s, now, budget);
            let list = s.selected(now, budget);
            assert forall|k: u64| #[trigger] after.outputs.contains_key(k) implies timely(
                after.outputs[k],
            ) by {
                assert(s.outputs.contains_key(k));
                if list.contains(k) {
                    let i = list.index_of(k);
                    assert(list[i] == k);
                    schedules_stay_timely(s.outputs[k], RepaintReasons(0), None);
                } else {
                    assert(after.outputs[k] == s.outputs[k]);
                }
            }
        },
        Step::Submitted { output, frame_id } => {
            let k = output.0 as u64;
            runtime_laws::single_steps_stay_sound(s, output, RepaintReasons(0), None, frame_id);
            if s.outputs.contains_key(k) {
                schedules_stay_timely(s.outputs[k], RepaintReasons(0), None);
            }
        },
        Step::Presented { output, frame_id } => {
            let k = output.0 as u64;
            runtime_laws::single_steps_stay_sound(s, output, RepaintReasons(0), None, frame_id);
            if s.outputs.contains_key(k) {
                schedules_stay_timely(s.outputs[k], RepaintReasons(0), None);
            }
        },
        Step::Failed { output, frame_id, deadline } => {
            let k = output.0 as u64;
            runtime_laws::single_steps_stay_sound(
                s,
                output,
                RepaintReasons(0),
                deadline,
                frame_id,
            );
            if s.outputs.contains_key(k) {
                schedules_stay_timely(s.outputs[k], RepaintReasons(0), deadline);
            }
        },
        Step::Pause => {
            runtime_laws::pausing_and_resuming(s, 0);
            assert(after.outputs.dom() =~= s.outputs.dom());
            assert forall|k: u64| #[trigger] after.outputs.contains_key(k) implies timely(
                after.outputs[k],
            ) by {
                assert(s.outputs.contains_key(k));
                schedules_stay_timely(s.outputs[k], RepaintReasons(0), None);
            }
        },
        Step::Resume => {
            runtime_laws::pausing_and_resuming(s, 0);
            assert(after.outputs.dom() =~= s.outputs.dom());
            assert forall|k: u64| #[trigger] after.outputs.contains_key(k) implies timely(
                after.outputs[k],
            ) by {
                assert(s.outputs.contains_key(k));
                schedules_stay_timely(s.outputs[k], RepaintReasons(0), None);
            }
        },
    }
}

/// A scheduler starts orderly and stays so, whatever is done to it, as long as every request has
/// a reason.
pub proof fn runs_stay_orderly(s: runtime::SchedulerView, steps: Seq<Step>, n: int)
    requires
        orderly(s),
        reasoned(steps),
        0 <= n <= steps.len(),
    ensures
        orderly(runtime::SchedulerView::fresh()),
        orderly(after_steps(s, steps, n)),
    decreases n,
{
    if n > 0 {
        runs_stay_orderly(s, steps, n - 1);
        assert(steps[n - 1] matches Step::Request { reason, .. } ==> reason.0 != 0);
        steps_stay_orderly(after_steps(s, steps, n - 1), steps[n - 1]);
    }
}

/// Whether an output may begin its frame at a time.
pub open spec fn ready_at(s: runtime::SchedulerView, k: u64, now: u64) -> bool {
    s.outputs.contains_key(k) && s.outputs[k].phase == OutputPhase::Scheduled && s.outputs[k].due(
        now,
    )
}

/// Some output has a place in the queue that may be served just when some output may begin its
/// frame.
pub proof fn readiness_is_queued(s: runtime::SchedulerView, now: u64)
    requires
        runtime_laws::sound(s),
    ensures
        (exists|i: int| s.eligible(now, i)) <==> (exists|k: u64| ready_at(s, k, now)),
{
    if exists|i: int| s.eligible(now, i) {
        let i = choose|i: int| s.eligible(now, i);
        assert(s.ready.contains(s.ready[i]));
        assert(ready_at(s, s.ready[i], now));
    }
    if exists|k: u64| ready_at(s, k, now) {
        let k = choose|k: u64| ready_at(s, k, now);
        assert(s.ready.contains(k));
        let i = s.ready.index_of(k);
        assert(s.eligible(now, i));
    }
}

/// A request with a deadline puts nothing off: what may begin at a time still may. An idle output
/// is scheduled and may begin from the deadline on; one that is scheduled for a deadline has the
/// earlier of the two; and one with immediate work may begin at any time.
pub proof fn timed_requests_delay_nothing(
    s: runtime::SchedulerView,
    output: OutputId,
    reason: RepaintReasons,
    deadline: u64,
    k: u64,
    now: u64,
)
    requires
        orderly(s),
        reason.0 != 0,
    ensures
        ({
            let after = s.requested(output, reason, Some(deadline));
            let o = output.0 as u64;
            &&& ready_at(s, k, now) ==> ready_at(after, k, now)
            &&& (exists|i: int| s.eligible(now, i)) ==> (exists|i: int| after.eligible(now, i))
            &&& s.outputs.contains_key(o) && s.outputs[o].phase == OutputPhase::Idle ==> {
                &&& after.outputs[o].phase == OutputPhase::Scheduled
                &&& ready_at(after, o, now) <==> now >= deadline
            }
            &&& s.outputs.contains_key(o) && s.outputs[o].phase == OutputPhase::Scheduled ==> {
                &&& after.outputs[o].phase == OutputPhase::Scheduled
                &&& s.outputs[o].immediate_pending ==> ready_at(after, o, now)
                &&& match s.outputs[o].deadline {
                    Some(at) => after.outputs[o].deadline == Some(
                        if at < deadline {
                            at
                        } else {
                            deadline
                        },
                    ),
                    None => s.outputs[o].immediate_pending && after.outputs[o].deadline is None,
                }
            }
        }),
{
    let after = s.requested(output, reason, Some(deadline));
    let o = output.0 as u64;
    steps_stay_orderly(s, Step::Request { output, reason, deadline: Some(deadline) });
    readiness_is_queued(s, now);
    readiness_is_queued(after, now);
    if exists|x: u64| ready_at(s, x, now) {
        let x = choose|x: u64| ready_at(s, x, now);
        if s.outputs.contains_key(o) {
            assert(timely(s.outputs[o]));
        }
        assert(ready_at(after, x, now));
    }
    if s.outputs.contains_key(o) {
        assert(timely(s.outputs[o]));
    }
}

/// Whether a step has nothing to do with the frame that an output has on its way, but for saying
/// that it was handed over.
pub open spec fn leaves_frame(step: Step, k: u64, frame_id: u64) -> bool {
    match step {
        Step::Remove(output) => output.0 as u64 != k,
        Step::Presented { output, frame_id: id } => output.0 as u64 != k || id != frame_id,
        Step::Failed { output, frame_id: id, .. } => output.0 as u64 != k || id != frame_id,
        Step::Pause => false,
        Step::Resume => false,
        _ => true,
    }
}

/// The reasons of the requests for an output among the first `n` of some steps.
pub open spec fn requested_since(steps: Seq<Step>, n: int, k: u64) -> RepaintReasons
    decreases n,
{
    if n <= 0 {
        RepaintReasons(0)
    } else {
        let before = requested_since(steps, n - 1, k);
        match steps[n - 1] {
            Step::Request { output, reason, .. } => if output.0 as u64 == k {
                before.with(reason)
            } else {
                before
            },
            _ => before,
        }
    }
}

/// Whether none of the first `n` of some steps is a request for an output.
pub open spec fn none_requested(steps: Seq<Step>, n: int, k: u64) -> bool {
    forall|i: int|
        0 <= i < n ==> ((#[trigger] steps[i]) matches Step::Request { output, .. } ==> output.0 as u64
            != k)
}

proof fn requests_add_up(steps: Seq<Step>, n: int, k: u64)
    requires
        reasoned(steps),
        0 <= n <= steps.len(),
    ensures
        requested_since(steps, n, k).0 == 0 <==> none_requested(steps, n, k),
    decreases n,
{
    if n > 0 {
        requests_add_up(steps, n - 1, k);
        let last = steps[n - 1];
        if let Step::Request { output, reason, .. } = last {
            joined_reasons(requested_since(steps, n - 1, k), reason);
            if output.0 as u64 == k {
                assert(!none_requested(steps, n, k));
            }
        }
        if none_requested(steps, n - 1, k) && (last matches Step::Request { output, .. }
            ==> output.0 as u64 != k) {
            assert(none_requested(steps, n, k));
        }
        if none_requested(steps, n, k) {
            assert(steps[n - 1] matches Step::Request { output, .. } ==> output.0 as u64 != k);
        }
    }
}

proof fn frames_collect_requests(
    s: runtime::SchedulerView,
    steps: Seq<Step>,
    n: int,
    k: u64,
    frame_id: u64,
)
    requires
        orderly(s),
        reasoned(steps),
        0 <= n <= steps.len(),
        s.outputs.contains_key(k),
        s.outputs[k].in_flight(frame_id),
        s.outputs[k].dirty_after_present.0 == 0,
        forall|i: int| 0 <= i < n ==> leaves_frame(#[trigger] steps[i], k, frame_id),
    ensures
        ({
            let after = after_steps(s, steps, n);
            &&& after.outputs.contains_key(k)
            &&& after.outputs[k].in_flight(frame_id)
            &&& after.outputs[k].dirty_after_present == requested_since(steps, n, k)
            &&& after.outputs[k].next_frame_id == s.outputs[k].next_frame_id
        }),
    decreases n,
{
    if n > 0 {
        frames_collect_requests(s, steps, n - 1, k, frame_id);
        runs_stay_orderly(s, steps, n - 1);
        let before = after_steps(s, steps, n - 1);
        let step = steps[n - 1];
        assert(leaves_frame(step, k, frame_id));
        if let Step::Begin { now, budget } = step {
            queues_are_short(before);
            runtime_laws::beginning_serves(before, now, budget);
            let list = before.selected(now, budget);
            if list.contains(k) {
                let i = list.index_of(k);
                assert(list[i] == k);
            }
        }
    }
}

/// A frame that has been shown is followed by what was asked for since it began. Nothing was:
/// the output is idle. Otherwise it is scheduled once, for exactly those reasons. A report on
/// any other frame, or on one that was not handed over, changes nothing.
pub proof fn shown_frames_are_followed_up(
    s: runtime::SchedulerView,
    now: u64,
    budget: usize,
    i: int,
    steps: Seq<Step>,
    other: u64,
)
    requires
        orderly(s),
        reasoned(steps),
        0 <= i < s.selected(now, budget).len(),
        ({
            let k = s.selected(now, budget)[i];
            forall|j: int|
                0 <= j < steps.len() ==> leaves_frame(
                    #[trigger] steps[j],
                    k,
                    s.outputs[k].next_frame_id,
                )
        }),
    ensures
        ({
            let k = s.selected(now, budget)[i];
            let request = s.begun(now, budget).1[i];
            let n = steps.len() as int;
            let last = after_steps(s.begun(now, budget).0, steps, n);
            let since = requested_since(steps, n, k);
            let (after, shown) = last.presented(request.output, request.frame_id);
            &&& request.output.0 as u64 == k
            &&& shown <==> last.outputs[k].phase == OutputPhase::AwaitingPresentation
            &&& !shown ==> after == last
            &&& shown && none_requested(steps, n, k) ==> after.outputs[k].phase == OutputPhase::Idle
            &&& shown && !none_requested(steps, n, k) ==> {
                &&& after.outputs[k].phase == OutputPhase::Scheduled
                &&& after.outputs[k].reasons == since
                &&& after.ready == last.ready.push(k)
                &&& !last.ready.contains(k)
            }
            &&& other != request.frame_id ==> last.presented(request.output, other) == (last, false)
        }),
{
    let k = s.selected(now, budget)[i];
    let n = steps.len() as int;
    queues_are_short(s);
    runtime_laws::beginning_serves(s, now, budget);
    steps_stay_orderly(s, Step::Begin { now, budget });
    let first = s.begun(now, budget).0;
    assert(s.outputs.contains_key(k) && s.outputs[k].phase == OutputPhase::Scheduled);
    frames_collect_requests(first, steps, n, k, s.outputs[k].next_frame_id);
    requests_add_up(steps, n, k);
    runs_stay_orderly(first, steps, n);
    let last = after_steps(first, steps, n);
    assert(last.ready.contains(k) ==> last.outputs[k].phase == OutputPhase::Scheduled);
}

/// A frame that has failed is tried again: the output is scheduled once, for a repaint of all and
/// what was asked for since the frame began. It may begin at once whatever deadline later work
/// has, or from the time that the backend has chosen on. A report on any other frame changes
/// nothing.
pub proof fn failed_frames_are_tried_again(
    s: runtime::SchedulerView,
    now: u64,
    budget: usize,
    i: int,
    steps: Seq<Step>,
    retry: Option<u64>,
    other: u64,
    time: u64,
)
    requires
        orderly(s),
        reasoned(steps),
        0 <= i < s.selected(now, budget).len(),
        ({
            let k = s.selected(now, budget)[i];
            forall|j: int|
                0 <= j < steps.len() ==> leaves_frame(
                    #[trigger] steps[j],
                    k,
                    s.outputs[k].next_frame_id,
                )
        }),
    ensures
        ({
            let k = s.selected(now, budget)[i];
            let request = s.begun(now, budget).1[i];
            let n = steps.len() as int;
            let last = after_steps(s.begun(now, budget).0, steps, n);
            let since = requested_since(steps, n, k);
            let (after, failed) = last.failed(request.output, request.frame_id, retry);
            &&& failed
            &&& after.outputs[k].phase == OutputPhase::Scheduled
            &&& after.outputs[k].reasons == since.with(RepaintReasons(32))
            &&& after.ready == last.ready.push(k)
            &&& !last.ready.contains(k)
            &&& ready_at(after, k, time) <==> (retry matches Some(at) ==> at <= time)
            &&& other != request.frame_id ==> last.failed(request.output, other, retry) == (
                last,
                false,
            )
        }),
{
    let k = s.selected(now, budget)[i];
    let n = steps.len() as int;
    queues_are_short(s);
    runtime_laws::beginning_serves(s, now, budget);
    steps_stay_orderly(s, Step::Begin { now, budget });
    let first = s.begun(now, budget).0;
    assert(s.outputs.contains_key(k) && s.outputs[k].phase == OutputPhase::Scheduled);
    frames_collect_requests(first, steps, n, k, s.outputs[k].next_frame_id);
    runs_stay_orderly(first, steps, n);
    let last = after_steps(first, steps, n);
    joined_reasons(last.outputs[k].dirty_after_present, RepaintReasons(32));
    assert(last.ready.contains(k) ==> last.outputs[k].phase == OutputPhase::Scheduled);
}

/// Whether an output stays and begins no frame in the first `n` of some steps.
pub open spec fn waits(s: runtime::SchedulerView, steps: Seq<Step>, n: int, k: u64) -> bool
    decreases n,
{
    n <= 0 || (waits(s, steps, n - 1, k) && match steps[n - 1] {
        Step::Remove(output) => output.0 as u64 != k,
        Step::Begin { now, budget } => !after_steps(s, steps, n - 1).selected(
            now,
            budget,
        ).contains(k),
        _ => true,
    })
}

/// The id of the frame after another.
pub open spec fn next_id(frame_id: u64) -> u64 {
    if frame_id == u64::MAX {
        1
    } else {
        (frame_id + 1) as u64
    }
}

proof fn waiting_keeps_the_next_id(s: runtime::SchedulerView, steps: Seq<Step>, n: int, k: u64)
    requires
        orderly(s),
        reasoned(steps),
        0 <= n <= steps.len(),
        s.outputs.contains_key(k),
        waits(s, steps, n, k),
    ensures
        after_steps(s, steps, n).outputs.contains_key(k),
        after_steps(s, steps, n).outputs[k].next_frame_id == s.outputs[k].next_frame_id,
    decreases n,
{
    if n > 0 {
        waiting_keeps_the_next_id(s, steps, n - 1, k);
        runs_stay_orderly(s, steps, n - 1);
        let before = after_steps(s, steps, n - 1);
        if let Step::Begin { now, budget } = steps[n - 1] {
            queues_are_short(before);
            runtime_laws::beginning_serves(before, now, budget);
            assert(before.outputs.contains_key(k));
        }
    }
}

/// The frames of an output follow each other by their ids: after a frame, and any steps in which
/// the output is not removed and begins no other, the next has the id after it. The first frame
/// of an output that was added has the id one, and no frame has the id zero.
pub proof fn frame_ids_follow_each_other(
    s: runtime::SchedulerView,
    now: u64,
    budget: usize,
    i: int,
    steps: Seq<Step>,
    later: u64,
    later_budget: usize,
    j: int,
)
    requires
        orderly(s),
        reasoned(steps),
        0 <= i < s.selected(now, budget).len(),
        waits(
            s.begun(now, budget).0,
            steps,
            steps.len() as int,
            s.selected(now, budget)[i],
        ),
        ({
            let last = after_steps(s.begun(now, budget).0, steps, steps.len() as int);
            0 <= j < last.selected(later, later_budget).len() && last.selected(
                later,
                later_budget,
            )[j] == s.selected(now, budget)[i]
        }),
    ensures
        ({
            let last = after_steps(s.begun(now, budget).0, steps, steps.len() as int);
            let first = s.begun(now, budget).1[i];
            let second = last.begun(later, later_budget).1[j];
            &&& second.output == first.output
            &&& second.frame_id == next_id(first.frame_id)
            &&& first.frame_id != 0
            &&& second.frame_id != 0
        }),
{
    let k = s.selected(now, budget)[i];
    let n = steps.len() as int;
    queues_are_short(s);
    runtime_laws::beginning_serves(s, now, budget);
    steps_stay_orderly(s, Step::Begin { now, budget });
    let begun = s.begun(now, budget).0;
    assert(s.outputs.contains_key(k));
    assert(timely(s.outputs[k]));
    waiting_keeps_the_next_id(begun, steps, n, k);
    runs_stay_orderly(begun, steps, n);
    let last = after_steps(begun, steps, n);
    queues_are_short(last);
    runtime_laws::beginning_serves(last, later, later_budget);
    assert(last.selected(later, later_budget)[j] == k);
}

/// The first frame of an output that was added has the id one.
pub proof fn frame_ids_start_at_one(
    s: runtime::SchedulerView,
    output: OutputId,
    steps: Seq<Step>,
    now: u64,
    budget: usize,
    j: int,
)
    requires
        orderly(s),
        reasoned(steps),
        !s.outputs.contains_key(output.0 as u64),
        waits(s.added(output), steps, steps.len() as int, output.0 as u64),
        ({
            let last = after_steps(s.added(output), steps, steps.len() as int);
            0 <= j < last.selected(now, budget).len() && last.selected(now, budget)[j]
                == output.0 as u64
        }),
    ensures
        after_steps(s.added(output), steps, steps.len() as int).begun(now, budget).1[j].frame_id
            == 1,
{
    let n = steps.len() as int;
    let first = s.added(output);
    steps_stay_orderly(s, Step::Add(output));
    waiting_keeps_the_next_id(first, steps, n, output.0 as u64);
    runs_stay_orderly(first, steps, n);
    let last = after_steps(first, steps, n);
    queues_are_short(last);
    runtime_laws::beginning_serves(last, now, budget);
    assert(last.selected(now, budget)[j] == output.0 as u64);
}

/// Whether none of the first `n` of some steps adds an output.
pub open spec fn not_added(steps: Seq<Step>, n: int, k: u64) -> bool {
    forall|i: int|
        0 <= i < n ==> ((#[trigger] steps[i]) matches Step::Add(output) ==> output.0 as u64 != k)
}

proof fn the_gone_stay_gone(s: runtime::SchedulerView, steps: Seq<Step>, n: int, k: u64)
    requires
        orderly(s),
        reasoned(steps),
        0 <= n <= steps.len(),
        !s.outputs.contains_key(k),
        not_added(steps, n, k),
    ensures
        !after_steps(s, steps, n).outputs.contains_key(k),
    decreases n,
{
    if n > 0 {
        assert(not_added(steps, n - 1, k));
        the_gone_stay_gone(s, steps, n - 1, k);
        runs_stay_orderly(s, steps, n - 1);
        let before = after_steps(s, steps, n - 1);
        assert(steps[n - 1] matches Step::Add(output) ==> output.0 as u64 != k);
        if let Step::Begin { now, budget } = steps[n - 1] {
            queues_are_short(before);
            runtime_laws::beginning_serves(before, now, budget);
            assert(!before.outputs.dom().contains(k));
            assert(!before.begun(now, budget).0.outputs.dom().contains(k));
        }
    }
}

/// There is an earliest time that a frame has been put off to, and none where there is none.
proof fn earliest_is_someones(s: runtime::SchedulerView)
    requires
        s.outputs.dom().finite(),
    ensures
        s.is_earliest(s.earliest()),
{
    let put_off = s.outputs.dom().filter(
        |k: u64| s.outputs[k].phase == OutputPhase::Scheduled && s.outputs[k].deadline is Some,
    );
    let time = earliest_among(s, put_off);
    assert(s.is_earliest(time)) by {
        assert forall|k: u64| #[trigger]
            s.outputs.contains_key(k) && s.outputs[k].phase == OutputPhase::Scheduled
                && s.outputs[k].deadline is Some implies time is Some && time->0
            <= s.outputs[k].deadline->0 by {
            assert(put_off.contains(k));
        }
    }
}

proof fn earliest_among(s: runtime::SchedulerView, put_off: Set<u64>) -> (time: Option<u64>)
    requires
        put_off.finite(),
        forall|k: u64| #[trigger]
            put_off.contains(k) ==> s.outputs.contains_key(k) && s.outputs[k].phase
                == OutputPhase::Scheduled && s.outputs[k].deadline is Some,
    ensures
        time matches Some(at) ==> exists|k: u64| #[trigger]
            s.outputs.contains_key(k) && s.outputs[k].phase == OutputPhase::Scheduled
                && s.outputs[k].deadline == Some(at),
        forall|k: u64| #[trigger]
            put_off.contains(k) ==> time is Some && time->0 <= s.outputs[k].deadline->0,
    decreases put_off.len(),
{
    if put_off.len() == 0 {
        assert(put_off =~= Set::<u64>::empty());
        None
    } else {
        let k = put_off.choose();
        assert(put_off.contains(k));
        assert(s.outputs.contains_key(k));
        let rest = put_off.remove(k);
        let at = s.outputs[k].deadline->0;
        let other = earliest_among(s, rest);
        let time = match other {
            Some(earlier) => if earlier < at {
                earlier
            } else {
                at
            },
            None => at,
        };
        assert forall|x: u64| #[trigger] put_off.contains(x) implies time
            <= s.outputs[x].deadline->0 by {
            if x != k {
                assert(rest.contains(x));
            }
        }
        Some(time)
    }
}

proof fn dropping_filters(list: Seq<u64>, k: u64)
    ensures
        runtime::without(list, k) == list.filter(|x: u64| x != k),
    decreases list.len(),
{
    reveal(Seq::filter);
    if list.len() > 0 {
        dropping_filters(list.drop_last(), k);
    }
}

/// An output that was removed has no phase, and until it is added again it is served no more: no
/// frame of it begins, it is waited for by nobody, and reports on it change nothing. The other
/// outputs keep their schedules and their order in the queue.
pub proof fn removed_outputs_are_not_served(
    s: runtime::SchedulerView,
    output: OutputId,
    steps: Seq<Step>,
    now: u64,
    budget: usize,
    frame_id: u64,
    deadline: Option<u64>,
    k: u64,
    i: int,
)
    requires
        orderly(s),
        reasoned(steps),
        not_added(steps, steps.len() as int, output.0 as u64),
    ensures
        ({
            let gone = output.0 as u64;
            let removed = s.removed(output);
            let last = after_steps(removed, steps, steps.len() as int);
            &&& !last.outputs.contains_key(gone)
            &&& !ready_at(last, gone, now)
            &&& last.eligible(now, i) ==> last.ready[i] != gone
            &&& last.earliest() matches Some(at) ==> exists|x: u64| #[trigger]
                last.outputs.contains_key(x) && x != gone && last.outputs[x].phase
                    == OutputPhase::Scheduled && last.outputs[x].deadline == Some(at)
            &&& 0 <= i < last.begun(now, budget).1.len() ==> last.begun(now, budget).1[i].output
                != output
            &&& last.submitted(output, frame_id) == (last, false)
            &&& last.presented(output, frame_id) == (last, false)
            &&& last.failed(output, frame_id, deadline) == (last, false)
            &&& k != gone ==> removed.outputs.contains_key(k) == s.outputs.contains_key(k)
            &&& k != gone && s.outputs.contains_key(k) ==> removed.outputs[k] == s.outputs[k]
            &&& removed.ready == s.ready.filter(|x: u64| x != gone)
        }),
{
    let gone = output.0 as u64;
    let removed = s.removed(output);
    let n = steps.len() as int;
    steps_stay_orderly(s, Step::Remove(output));
    the_gone_stay_gone(removed, steps, n, gone);
    runs_stay_orderly(removed, steps, n);
    dropping_filters(s.ready, gone);
    let last = after_steps(removed, steps, n);
    queues_are_short(last);
    runtime_laws::beginning_serves(last, now, budget);
    earliest_is_someones(last);
    if 0 <= i < last.begun(now, budget).1.len() {
        let other = last.selected(now, budget)[i];
        assert(last.outputs.contains_key(other));
        assert(other <= u32::MAX);
    }
}

} // verus!
