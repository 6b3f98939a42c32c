//! What repaint scheduling keeps: no work is lost, no output has two frames on its way, and no
//! kind of work starves another.

use crate::model::OutputId;
use crate::ranking;
use crate::runtime;
use crate::runtime::{OutputPhase, OutputSchedule, RenderRequest, RepaintReasons};
use vstd::prelude::*;

verus! {

/// Whether the schedule of one output is consistent: a frame is on its way only while it is
/// rendered or awaited, and work waits in one place.
pub open spec fn consistent(s: OutputSchedule) -> bool {
    &&& s.active_frame_id is Some <==> s.phase == OutputPhase::Rendering || s.phase
        == OutputPhase::AwaitingPresentation
    &&& s.phase != OutputPhase::Scheduled ==> s.reasons.0 == 0
    &&& s.phase == OutputPhase::Idle || s.phase == OutputPhase::Scheduled
        ==> s.dirty_after_present.0 == 0
}

/// Whether the scheduler is consistent: every output is and is known under its own id, the queue
/// holds exactly the scheduled outputs, each once, and outputs are paused together.
pub open spec fn sound(s: runtime::SchedulerView) -> bool {
    &&& s.ready.no_duplicates()
    &&& forall|k: u64| #[trigger]
        s.ready.contains(k) <==> s.outputs.contains_key(k) && s.outputs[k].phase
            == OutputPhase::Scheduled
    &&& forall|k: u64| #[trigger]
        s.outputs.contains_key(k) ==> k <= u32::MAX && consistent(s.outputs[k]) && ((
        s.outputs[k].phase == OutputPhase::Paused) == s.paused)
}

/// A new scheduler is consistent.
pub proof fn fresh_is_sound()
    ensures
        sound(runtime::SchedulerView::fresh()),
{
}

proof fn pushed(list: Seq<u64>, k: u64)
    requires
        list.no_duplicates(),
        !list.contains(k),
    ensures
        list.push(k).no_duplicates(),
        forall|x: u64| #[trigger] list.push(k).contains(x) <==> list.contains(x) || x == k,
{
    let more = list.push(k);
    assert forall|x: u64| #[trigger] more.contains(x) <==> list.contains(x) || x == k by {
        if list.contains(x) {
            let i = choose|i: int| 0 <= i < list.len() && list[i] == x;
            assert(more[i] == x);
        }
        if x == k {
            assert(more[list.len() as int] == x);
        }
        if more.contains(x) {
            let i = choose|i: int| 0 <= i < more.len() && more[i] == x;
            if i < list.len() {
                assert(list[i] == x);
            }
        }
    }
    assert forall|i: int, j: int| 0 <= i < j < more.len() implies more[i] != more[j] by {
        if j == list.len() {
            assert(list.contains(list[i]));
        }
    }
}

proof fn dropped(list: Seq<u64>, id: u64)
    requires
        list.no_duplicates(),
    ensures
        runtime::without(list, id).no_duplicates(),
        forall|x: u64| #[trigger]
            runtime::without(list, id).contains(x) <==> list.contains(x) && x != id,
    decreases list.len(),
{
    let after = runtime::without(list, id);
    if list.len() > 0 {
        let rest = list.drop_last();
        let last = list.last();
        dropped(rest, id);
        assert(list =~= rest.push(last));
        assert(!rest.contains(last)) by {
            if rest.contains(last) {
                let i = choose|i: int| 0 <= i < rest.len() && rest[i] == last;
                assert(list[i] == list[list.len() - 1]);
            }
        }
        pushed(rest, last);
        if last != id {
            assert(!runtime::without(rest, id).contains(last));
            pushed(runtime::without(rest, id), last);
        }
    } else {
        assert forall|x: u64| #[trigger] after.contains(x) <==> list.contains(x) && x != id by {}
    }
}

/// Adding and removing outputs, requests and the ends of frames keep the scheduler consistent.
pub proof fn single_steps_stay_sound(
    s: runtime::SchedulerView,
    output: OutputId,
    reason: RepaintReasons,
    deadline: Option<u64>,
    frame_id: u64,
)
    requires
        sound(s),
    ensures
        sound(s.added(output)),
        sound(s.removed(output)),
        sound(s.requested(output, reason, deadline)),
        sound(s.submitted(output, frame_id).0),
        sound(s.presented(output, frame_id).0),
        sound(s.failed(output, frame_id, deadline).0),
{
    let k = output.0 as u64;
    dropped(s.ready, k);
    assert(sound(s.removed(output)));
    if !s.outputs.contains_key(k) {
        assert(!s.ready.contains(k));
        assert(sound(s.added(output)));
    } else {
        let schedule = s.outputs[k];
        if !s.ready.contains(k) {
            pushed(s.ready, k);
        }
        let a = s.requested(output, reason, deadline);
        assert(consistent(a.outputs[k]));
        assert(sound(a));
        let b = s.submitted(output, frame_id).0;
        assert(sound(b));
        let c = s.presented(output, frame_id).0;
        assert(sound(c));
        let d = s.failed(output, frame_id, deadline).0;
        assert(sound(d));
    }
}

proof fn paused_listed(outputs: Map<u64, OutputSchedule>, keys: Seq<u64>)
    requires
        keys.no_duplicates(),
    ensures
        runtime::paused_among(outputs, keys).no_duplicates(),
        forall|x: u64| #[trigger]
            runtime::paused_among(outputs, keys).contains(x) <==> keys.contains(x)
                && outputs[x].phase == OutputPhase::Paused,
    decreases keys.len(),
{
    let after = runtime::paused_among(outputs, keys);
    if keys.len() > 0 {
        let rest = keys.drop_last();
        let last = keys.last();
        paused_listed(outputs, rest);
        assert(keys =~= rest.push(last));
        assert(!rest.contains(last)) by {
            if rest.contains(last) {
                let i = choose|i: int| 0 <= i < rest.len() && rest[i] == last;
                assert(keys[i] == keys[keys.len() - 1]);
            }
        }
        pushed(rest, last);
        assert(!runtime::paused_among(outputs, rest).contains(last));
        pushed(runtime::paused_among(outputs, rest), last);
    } else {
        assert forall|x: u64| #[trigger] after.contains(x) <==> keys.contains(x)
            && outputs[x].phase == OutputPhase::Paused by {}
    }
}

/// Pausing and resuming keep the scheduler consistent. While it is paused no output is
/// scheduled, and when it resumes every output is, with a repaint of everything.
pub proof fn pausing_and_resuming(s: runtime::SchedulerView, k: u64)
    requires
        sound(s),
        s.outputs.dom().finite(),
    ensures
        sound(s.pausing()),
        sound(s.resuming()),
        s.pausing().ready.len() == 0,
        s.paused && s.outputs.contains_key(k) ==> s.resuming().ready.contains(k)
            && s.resuming().outputs[k].reasons.has(RepaintReasons(32))
            && s.resuming().outputs[k].deadline is None,
{
    let p = s.pausing();
    assert forall|x: u64| #[trigger] p.ready.contains(x) <==> p.outputs.contains_key(x)
        && p.outputs[x].phase == OutputPhase::Scheduled by {}
    assert(sound(p));
    let keys = ranking::ascending(s.outputs.dom());
    ranking::ranking_ranks(s.outputs.dom(), |id: u64| 0);
    paused_listed(s.outputs, keys);
    let woken = runtime::paused_among(s.outputs, keys);
    let r = s.resuming();
    assert forall|x: u64| woken.contains(x) <==> s.outputs.contains_key(x) && s.outputs[x].phase
        == OutputPhase::Paused by {
        assert(keys.contains(x) <==> keys.to_set().contains(x));
    }
    assert forall|x: u64| #[trigger] r.ready.contains(x) <==> s.ready.contains(x)
        || woken.contains(x) by {
        if s.ready.contains(x) {
            let i = choose|i: int| 0 <= i < s.ready.len() && s.ready[i] == x;
            assert(r.ready[i] == x);
        }
        if woken.contains(x) {
            let i = choose|i: int| 0 <= i < woken.len() && woken[i] == x;
            assert(r.ready[s.ready.len() + i] == x);
        }
        if r.ready.contains(x) {
            let i = choose|i: int| 0 <= i < r.ready.len() && r.ready[i] == x;
            if i < s.ready.len() {
                assert(s.ready[i] == x);
            } else {
                assert(woken[i - s.ready.len()] == x);
            }
        }
    }
    assert(r.ready.no_duplicates()) by {
        assert forall|i: int, j: int| 0 <= i < j < r.ready.len() implies r.ready[i]
            != r.ready[j] by {
            if i < s.ready.len() && j >= s.ready.len() {
                assert(s.ready.contains(s.ready[i]));
                assert(woken.contains(woken[j - s.ready.len()]));
            }
        }
    }
    assert(sound(r));
    if s.paused && s.outputs.contains_key(k) {
        let dirty = s.outputs[k].dirty_after_present;
        dirty.joining_keeps(RepaintReasons(32), RepaintReasons(32));
        assert(woken.contains(k));
    }
}

/// All the work that is known for an output.
pub open spec fn pending(s: runtime::SchedulerView, k: u64) -> RepaintReasons {
    s.outputs[k].reasons.with(s.outputs[k].dirty_after_present)
}

/// A request is among the work of its output, and nothing but the beginning of a frame takes
/// work from an output.
pub proof fn work_is_kept(
    s: runtime::SchedulerView,
    output: OutputId,
    reason: RepaintReasons,
    deadline: Option<u64>,
    frame_id: u64,
    k: u64,
    wanted: RepaintReasons,
)
    requires
        sound(s),
        s.outputs.contains_key(k),
    ensures
        k == output.0 as u64 ==> pending(s.requested(output, reason, deadline), k).has(reason),
        pending(s, k).has(wanted) ==> {
            &&& pending(s.added(output), k).has(wanted)
            &&& pending(s.requested(output, reason, deadline), k).has(wanted)
            &&& pending(s.submitted(output, frame_id).0, k).has(wanted)
            &&& pending(s.presented(output, frame_id).0, k).has(wanted)
            &&& pending(s.failed(output, frame_id, deadline).0, k).has(wanted)
            &&& pending(s.pausing(), k).has(wanted)
            &&& pending(s.resuming(), k).has(wanted)
        },
{
    let a = s.outputs[k].reasons.0;
    let b = s.outputs[k].dirty_after_present.0;
    let c = reason.0;
    let w = wanted.0;
    assert((a | b) & w == w ==> ((a | c) | b) & w == w) by (bit_vector);
    assert((a | b) & w == w ==> (a | (b | c)) & w == w) by (bit_vector);
    assert(((a | c) | b) & c == c) by (bit_vector);
    assert((a | (b | c)) & c == c) by (bit_vector);
    assert((a | b) & w == w ==> (0u8 | (b | a)) & w == w) by (bit_vector);
    assert((0u8 | b) & w == w ==> ((b | 32u8) | 0u8) & w == w) by (bit_vector);
    assert((0u8 | b) & w == w ==> (b | 0u8) & w == w) by (bit_vector);
    assert((0u8 | b) & w == w ==> (0u8 | b) & w == w) by (bit_vector);
}

proof fn kept_in_queue(outputs: Map<u64, OutputSchedule>, queue: Seq<u64>, selected: Seq<u64>)
    requires
        queue.no_duplicates(),
    ensures
        runtime::remaining(outputs, queue, selected).no_duplicates(),
        forall|x: u64| #[trigger]
            runtime::remaining(outputs, queue, selected).contains(x) <==> queue.contains(x)
                && !selected.contains(x) && outputs.contains_key(x),
    decreases queue.len(),
{
    let after = runtime::remaining(outputs, queue, selected);
    if queue.len() > 0 {
        let rest = queue.drop_last();
        let last = queue.last();
        kept_in_queue(outputs, rest, selected);
        assert(queue =~= rest.push(last));
        assert(!rest.contains(last)) by {
            if rest.contains(last) {
                let i = choose|i: int| 0 <= i < rest.len() && rest[i] == last;
                assert(queue[i] == queue[queue.len() - 1]);
            }
        }
        pushed(rest, last);
        assert(!runtime::remaining(outputs, rest, selected).contains(last));
        pushed(runtime::remaining(outputs, rest, selected), last);
    } else {
        assert forall|x: u64| #[trigger] after.contains(x) <==> queue.contains(x)
            && !selected.contains(x) && outputs.contains_key(x) by {}
    }
}

proof fn immediate_bound(s: runtime::SchedulerView, places: Seq<u64>)
    ensures
        0 <= s.before_immediate(places) <= places.len(),
        forall|i: int|
            0 <= i < s.before_immediate(places) ==> s.outputs[s.ready[(
            #[trigger] places[i]) as int]].deadline is Some,
        s.before_immediate(places) < places.len() ==> s.outputs[s.ready[places[s.before_immediate(
            places,
        )] as int]].deadline is None,
    decreases places.len(),
{
    if places.len() > 0 && s.outputs[s.ready[places[0] as int]].deadline is Some {
        let rest = places.drop_first();
        immediate_bound(s, rest);
        let n = s.before_immediate(places);
        assert forall|i: int| 0 <= i < n implies s.outputs[s.ready[(
        #[trigger] places[i]) as int]].deadline is Some by {
            if i > 0 {
                assert(rest[i - 1] == places[i]);
            }
        }
        if n < places.len() {
            assert(rest[n - 1] == places[n]);
        }
    }
}

/// The served places are the eligible ones, each once.
proof fn order_lists_eligible(s: runtime::SchedulerView, now: u64)
    requires
        s.ready.len() <= u64::MAX,
    ensures
        s.serving_order(now).no_duplicates(),
        s.serving_order(now).len() == s.eligible_places(now).len(),
        forall|p: u64| #[trigger]
            s.serving_order(now).contains(p) <==> s.eligible(now, p as int),
{
    s.places_are_known(now);
    let places = s.by_urgency(now);
    let order = s.serving_order(now);
    places.unique_seq_to_set();
    let n = if s.consecutive_deadline_priority >= 1 {
        s.before_immediate(places)
    } else {
        0
    };
    immediate_bound(s, places);
    assert(order =~= places.skip(n) + places.take(n));
    assert forall|p: u64| #[trigger] order.contains(p) <==> s.eligible(now, p as int) by {
        if order.contains(p) {
            let i = choose|i: int| 0 <= i < order.len() && order[i] == p;
            let m = if i < places.len() - n {
                i + n
            } else {
                i - (places.len() - n)
            };
            assert(places[m] == p);
            assert(places.contains(p));
        }
        if s.eligible(now, p as int) {
            assert(s.eligible_places(now).contains(p));
            assert(places.to_set().contains(p));
            let i = choose|i: int| 0 <= i < places.len() && places[i] == p;
            let m = if i >= n {
                i - n
            } else {
                i + (places.len() - n)
            };
            assert(order[m] == p);
        }
    }
    assert forall|i: int, j: int| 0 <= i < j < order.len() implies order[i] != order[j] by {
        let a = if i < places.len() - n {
            i + n
        } else {
            i - (places.len() - n)
        };
        let b = if j < places.len() - n {
            j + n
        } else {
            j - (places.len() - n)
        };
        assert(order[i] == places[a] && order[j] == places[b]);
        assert(a != b);
    }
}

/// The selected outputs are scheduled and due, and none is selected twice.
proof fn selection_is_due(s: runtime::SchedulerView, now: u64, budget: usize)
    requires
        sound(s),
        s.ready.len() <= u64::MAX,
    ensures
        s.selected(now, budget).no_duplicates(),
        s.selected(now, budget).len() <= budget,
        s.selected(now, budget).len() == (if budget < s.eligible_places(now).len() {
            budget as nat
        } else {
            s.eligible_places(now).len()
        }),
        forall|i: int|
            0 <= i < s.selected(now, budget).len() ==> {
                let k = #[trigger] s.selected(now, budget)[i];
                s.ready.contains(k) && s.outputs.contains_key(k) && s.outputs[k].due(now)
            },
{
    order_lists_eligible(s, now);
    let order = s.serving_order(now);
    let list = s.selected(now, budget);
    assert forall|i: int| 0 <= i < list.len() implies {
        let k = #[trigger] list[i];
        s.ready.contains(k) && s.outputs.contains_key(k) && s.outputs[k].due(now)
    } by {
        assert(order.contains(order[i]));
        assert(s.eligible(now, order[i] as int));
        assert(s.ready[order[i] as int] == list[i]);
    }
    assert forall|i: int, j: int| 0 <= i < j < list.len() implies list[i] != list[j] by {
        assert(order.contains(order[i]) && order.contains(order[j]));
        assert(s.eligible(now, order[i] as int) && s.eligible(now, order[j] as int));
        assert(order[i] != order[j]);
    }
}

proof fn starting_begins(s: runtime::SchedulerView, list: Seq<u64>, n: int)
    requires
        0 <= n <= list.len(),
        list.no_duplicates(),
        forall|i: int| 0 <= i < list.len() ==> s.outputs.contains_key(#[trigger] list[i]),
    ensures
        ({
            let (after, requests) = s.starting(list, n);
            &&& after.ready == s.ready
            &&& after.paused == s.paused
            &&& after.outputs.dom() == s.outputs.dom()
            &&& requests.len() == n
            &&& forall|i: int|
                0 <= i < n ==> after.outputs[#[trigger] list[i]] == s.outputs[list[i]].begun()
            &&& forall|i: int|
                0 <= i < n ==> (#[trigger] requests[i]) == (RenderRequest {
                    output: OutputId(list[i] as u32),
                    frame_id: s.outputs[list[i]].next_frame_id,
                    reasons: s.outputs[list[i]].reasons,
                })
            &&& forall|k: u64|
                (forall|i: int| 0 <= i < n ==> list[i] != k) ==> #[trigger] after.outputs[k]
                    == s.outputs[k]
        }),
    decreases n,
{
    if n > 0 {
        starting_begins(s, list, n - 1);
        let (before, requests) = s.starting(list, n - 1);
        let (after, all) = s.starting(list, n);
        let k = list[n - 1];
        assert(s.outputs.contains_key(k));
        assert(before.outputs.dom().contains(k));
        assert(before.outputs[k] == s.outputs[k]) by {
            assert forall|i: int| 0 <= i < n - 1 implies list[i] != k by {}
        }
        assert(after.outputs.dom() =~= s.outputs.dom());
        assert forall|i: int| 0 <= i < n implies after.outputs[#[trigger] list[i]]
            == s.outputs[list[i]].begun() by {
            if i < n - 1 {
                assert(list[i] != k);
            }
        }
        assert forall|x: u64| (forall|i: int| 0 <= i < n ==> list[i] != x) implies (
        #[trigger] after.outputs[x]) == s.outputs[x] by {
            assert(list[n - 1] != x);
            assert forall|i: int| 0 <= i < n - 1 implies list[i] != x by {}
        }
    }
}

/// Beginning frames keeps the scheduler consistent. It begins as many as the budget allows and
/// are due, no more than one for an output, and none before its deadline. A request carries all
/// the reasons that were scheduled, and work that came up for a later frame stays. All other
/// outputs keep their schedules.
pub proof fn beginning_serves(s: runtime::SchedulerView, now: u64, budget: usize)
    requires
        sound(s),
        s.ready.len() <= u64::MAX,
    ensures
        ({
            let (after, requests) = s.begun(now, budget);
            let list = s.selected(now, budget);
            &&& sound(after)
            &&& after.outputs.dom() == s.outputs.dom()
            &&& list.no_duplicates()
            &&& requests.len() == list.len()
            &&& requests.len() == (if budget < s.eligible_places(now).len() {
                budget as nat
            } else {
                s.eligible_places(now).len()
            })
            &&& forall|i: int|
                0 <= i < list.len() ==> {
                    let k = #[trigger] list[i];
                    &&& s.outputs.contains_key(k)
                    &&& s.outputs[k].phase == OutputPhase::Scheduled
                    &&& s.outputs[k].due(now)
                    &&& requests[i].output == OutputId(k as u32)
                    &&& requests[i].reasons == s.outputs[k].reasons
                    &&& requests[i].frame_id == s.outputs[k].next_frame_id
                    &&& after.outputs[k] == s.outputs[k].begun()
                    &&& after.outputs[k].phase == OutputPhase::Rendering
                    &&& after.outputs[k].active_frame_id == Some(requests[i].frame_id)
                    &&& after.outputs[k].dirty_after_present == s.outputs[k].dirty_after_present
                }
            &&& forall|k: u64| #[trigger]
                s.outputs.contains_key(k) && !list.contains(k) ==> after.outputs[k] == s.outputs[k]
        }),
{
    selection_is_due(s, now, budget);
    let list = s.selected(now, budget);
    let base = runtime::SchedulerView {
        ready: runtime::remaining(s.outputs, s.ready, list),
        ..s
    };
    kept_in_queue(s.outputs, s.ready, list);
    assert forall|i: int| 0 <= i < list.len() implies base.outputs.contains_key(
        #[trigger] list[i],
    ) by {}
    starting_begins(base, list, list.len() as int);
    let (after, requests) = s.begun(now, budget);
    assert forall|k: u64| #[trigger] s.outputs.contains_key(k) && !list.contains(k) implies
        after.outputs[k] == s.outputs[k] by {
        assert forall|i: int| 0 <= i < list.len() implies list[i] != k by {
            if list[i] == k {
                assert(list.contains(k));
            }
        }
    }
    assert forall|k: u64| #[trigger] after.outputs.contains_key(k) implies k <= u32::MAX
        && consistent(after.outputs[k]) && ((after.outputs[k].phase == OutputPhase::Paused)
        == after.paused) by {
        assert(s.outputs.contains_key(k));
        if list.contains(k) {
            let i = choose|i: int| 0 <= i < list.len() && list[i] == k;
            assert(after.outputs[list[i]] == s.outputs[list[i]].begun());
            assert(s.ready.contains(list[i]));
        }
    }
    assert forall|k: u64| #[trigger] after.ready.contains(k) <==> after.outputs.contains_key(k)
        && after.outputs[k].phase == OutputPhase::Scheduled by {
        assert(s.ready.contains(k) <==> s.outputs.contains_key(k) && s.outputs[k].phase
            == OutputPhase::Scheduled);
        if list.contains(k) {
            let i = choose|i: int| 0 <= i < list.len() && list[i] == k;
            assert(after.outputs[list[i]] == s.outputs[list[i]].begun());
        } else if s.outputs.contains_key(k) {
            assert(after.outputs[k] == s.outputs[k]);
        }
    }
    assert forall|i: int| 0 <= i < list.len() implies s.outputs[#[trigger] list[i]].phase
        == OutputPhase::Scheduled by {
        assert(s.ready.contains(list[i]));
    }
}

/// Deadlines come first, the earliest of them before all others; but once a frame with a
/// deadline has begun, immediate work comes first. So neither starves the other.
pub proof fn neither_starves(s: runtime::SchedulerView, now: u64, budget: usize, i: int)
    requires
        sound(s),
        s.ready.len() <= u64::MAX,
        budget >= 1,
        s.eligible(now, i),
    ensures
        ({
            let first = s.selected(now, budget)[0];
            let other = s.outputs[s.ready[i]];
            &&& s.selected(now, budget).len() >= 1
            &&& s.consecutive_deadline_priority >= 1 && other.deadline is None
                ==> s.outputs[first].deadline is None
            &&& s.consecutive_deadline_priority == 0 && other.deadline is Some
                ==> s.outputs[first].deadline is Some && s.outputs[first].deadline->0
                <= other.deadline->0
        }),
{
    order_lists_eligible(s, now);
    s.places_are_known(now);
    let places = s.by_urgency(now);
    let order = s.serving_order(now);
    assert(order.contains(i as u64));
    assert(order.len() >= 1);
    immediate_bound(s, places);
    assert(s.eligible_places(now).contains(i as u64));
    assert(places.to_set().contains(i as u64));
    let m = choose|m: int| 0 <= m < places.len() && places[m] == i as u64;
    let n = s.before_immediate(places);
    if s.consecutive_deadline_priority >= 1 {
        if s.outputs[s.ready[i]].deadline is None {
            assert(n <= m) by {
                if m < n {
                    assert(s.outputs[s.ready[places[m] as int]].deadline is Some);
                }
            }
            assert(order[0] == places[n]);
        }
    } else if s.outputs[s.ready[i]].deadline is Some {
        assert(order[0] == places[0]);
        if m > 0 {
            assert(ranking::precedes(
                (s.urgency())(places[0]),
                places[0],
                (s.urgency())(places[m]),
                places[m],
            ));
        }
    }
}

/// A frame counts as done only by its own id: reports about an earlier frame change nothing.
pub proof fn stale_reports_change_nothing(
    s: runtime::SchedulerView,
    output: OutputId,
    frame_id: u64,
    deadline: Option<u64>,
)
    requires
        s.outputs.contains_key(output.0 as u64) ==> s.outputs[output.0 as u64].active_frame_id
            != Some(frame_id),
    ensures
        s.submitted(output, frame_id) == (s, false),
        s.presented(output, frame_id) == (s, false),
        s.failed(output, frame_id, deadline) == (s, false),
{
}

} // verus!
