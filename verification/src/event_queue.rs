//! The queues in which the sources of the two backends leave their events.
//!
//! Both are bounded. What is lost when they are full is motion, which the next sample makes up
//! for; presses, releases and what concerns the life of a client are kept.

use vstd::prelude::*;

verus! {

/// How many events may wait.
pub const MAX_QUEUED_EVENTS: usize = 4096;

/// How many events are dealt with in one go.
pub const MAX_EVENTS_PER_BATCH: usize = 256;

/// An event of a source. Those with a number stand for what the source has kept under it.
#[derive(Clone, Copy, Debug, Eq, PartialEq, Structural)]
pub enum SourceEvent {
    Redraw,
    WaylandReady,
    IpcReady,
    ConfigChanged,
    /// The pointer has moved.
    Motion(u64),
    Other(u64),
}

impl SourceEvent {
    /// Whether one that waits already says as much as two.
    pub open spec fn coalesces(self) -> bool {
        match self {
            SourceEvent::Redraw => true,
            SourceEvent::WaylandReady => true,
            SourceEvent::IpcReady => true,
            SourceEvent::ConfigChanged => true,
            _ => false,
        }
    }

    pub open spec fn lossy(self) -> bool {
        self is Motion
    }

    pub fn is_coalescing(self) -> (r: bool)
        ensures
            r == self.coalesces(),
    {
        match self {
            SourceEvent::Redraw => true,
            SourceEvent::WaylandReady => true,
            SourceEvent::IpcReady => true,
            SourceEvent::ConfigChanged => true,
            _ => false,
        }
    }

    pub fn is_lossy_motion(self) -> (r: bool)
        ensures
            r == self.lossy(),
    {
        match self {
            SourceEvent::Motion(_) => true,
            _ => false,
        }
    }
}

/// The place of the first event that may be lost, from a place on.
pub open spec fn first_lossy(events: Seq<SourceEvent>, from: int) -> Option<int>
    decreases events.len() - from,
{
    if from < 0 || from >= events.len() {
        None
    } else if events[from].lossy() {
        Some(from)
    } else {
        first_lossy(events, from + 1)
    }
}

/// The queue of the nested backend with an event more. The oldest motion makes room when the
/// queue is full; where there is none, the queue grows beyond its bound rather than lose
/// anything else.
pub open spec fn nested_with(events: Seq<SourceEvent>, event: SourceEvent) -> Seq<SourceEvent> {
    if event.coalesces() && events.contains(event) {
        events
    } else if events.len() < MAX_QUEUED_EVENTS {
        events.push(event)
    } else {
        match first_lossy(events, 0) {
            Some(i) => events.remove(i).push(event),
            None => if event.lossy() {
                events
            } else {
                events.push(event)
            },
        }
    }
}

fn holds(events: &Vec<SourceEvent>, event: SourceEvent) -> (r: bool)
    ensures
        r == events@.contains(event),
{
    let mut i: usize = 0;
    while i < events.len()
        invariant
            i <= events@.len(),
            forall|j: int| 0 <= j < i ==> events@[j] != event,
        decreases events@.len() - i,
    {
        if events[i] == event {
            return true;
        }
        i = i + 1;
    }
    false
}

fn find_lossy(events: &Vec<SourceEvent>) -> (r: Option<usize>)
    ensures
        match first_lossy(events@, 0) {
            Some(i) => r == Some(i as usize) && 0 <= i < events@.len() && events@[i].lossy(),
            None => r is None,
        },
{
    let mut i: usize = 0;
    while i < events.len()
        invariant
            i <= events@.len(),
            first_lossy(events@, 0) == first_lossy(events@, i as int),
        decreases events@.len() - i,
    {
        if events[i].is_lossy_motion() {
            return Some(i);
        }
        i = i + 1;
    }
    None
}

/// Adds an event to the queue of the nested backend.
pub fn enqueue_nested(events: &mut Vec<SourceEvent>, event: SourceEvent)
    ensures
        final(events)@ == nested_with(old(events)@, event),
{
    if event.is_coalescing() && holds(events, event) {
        return;
    }
    if events.len() >= MAX_QUEUED_EVENTS {
        match find_lossy(events) {
            Some(i) => {
                events.remove(i);
            },
            None => {
                if event.is_lossy_motion() {
                    return;
                }
            },
        }
    }
    events.push(event);
}

/// What is to be done before an event has its place in the queue of the native backend.
#[derive(Debug, Eq, PartialEq)]
pub enum Admission {
    /// It says nothing new, or may be lost.
    Dropped,
    /// It waits now. The events that were taken out to make room are to be dealt with first.
    Queued { reduced: Vec<SourceEvent> },
}

#[verifier::ext_equal]
pub enum AdmissionView {
    Dropped,
    Queued { reduced: Seq<SourceEvent> },
}

impl View for Admission {
    type V = AdmissionView;

    open spec fn view(&self) -> AdmissionView {
        match self {
            Admission::Dropped => AdmissionView::Dropped,
            Admission::Queued { reduced } => AdmissionView::Queued { reduced: reduced@ },
        }
    }
}

/// The number of events in one go.
pub open spec fn batch(events: Seq<SourceEvent>) -> int {
    if events.len() < MAX_EVENTS_PER_BATCH {
        events.len() as int
    } else {
        MAX_EVENTS_PER_BATCH as int
    }
}

/// The queue of the native backend with an event more, and what becomes of the event. The oldest
/// events are dealt with at once when the queue is full, so that its bound holds and nothing but
/// motion is lost.
pub open spec fn native_with(events: Seq<SourceEvent>, event: SourceEvent) -> (
    Seq<SourceEvent>,
    AdmissionView,
) {
    if event.coalesces() && event != SourceEvent::Redraw && events.contains(event) {
        (events, AdmissionView::Dropped)
    } else if events.len() < MAX_QUEUED_EVENTS {
        (events.push(event), AdmissionView::Queued { reduced: Seq::empty() })
    } else if event.lossy() {
        (events, AdmissionView::Dropped)
    } else {
        (
            events.skip(batch(events)).push(event),
            AdmissionView::Queued { reduced: events.take(batch(events)) },
        )
    }
}

/// Takes the events that are dealt with in one go.
pub fn take_batch(events: &mut Vec<SourceEvent>) -> (r: Vec<SourceEvent>)
    ensures
        r@ == old(events)@.take(batch(old(events)@)),
        final(events)@ == old(events)@.skip(batch(old(events)@)),
{
    let count: usize = if events.len() < MAX_EVENTS_PER_BATCH {
        events.len()
    } else {
        MAX_EVENTS_PER_BATCH
    };
    let mut taken: Vec<SourceEvent> = events.split_off(count);
    std::mem::swap(&mut taken, events);
    assert(taken@ =~= old(events)@.take(count as int));
    assert(events@ =~= old(events)@.skip(count as int));
    taken
}

/// Adds an event to the queue of the native backend.
pub fn enqueue_native(events: &mut Vec<SourceEvent>, event: SourceEvent) -> (r: Admission)
    ensures
        (final(events)@, r@) == native_with(old(events)@, event),
{
    let redraw: bool = match event {
        SourceEvent::Redraw => true,
        _ => false,
    };
    if event.is_coalescing() && !redraw && holds(events, event) {
        return Admission::Dropped;
    }
    if events.len() < MAX_QUEUED_EVENTS {
        events.push(event);
        let reduced: Vec<SourceEvent> = Vec::new();
        assert(reduced@ =~= Seq::empty());
        return Admission::Queued { reduced };
    }
    if event.is_lossy_motion() {
        return Admission::Dropped;
    }
    let reduced: Vec<SourceEvent> = take_batch(events);
    events.push(event);
    Admission::Queued { reduced }
}

/// How often an event is in a list.
pub open spec fn occurrences(events: Seq<SourceEvent>, event: SourceEvent) -> nat {
    events.to_multiset().count(event)
}

/// The native queue never outgrows its bound.
pub proof fn native_queue_is_bounded(events: Seq<SourceEvent>, event: SourceEvent)
    requires
        events.len() <= MAX_QUEUED_EVENTS,
    ensures
        native_with(events, event).0.len() <= MAX_QUEUED_EVENTS,
{
}

/// The nested queue outgrows its bound by nothing but events that must not be lost.
pub proof fn nested_queue_is_bounded(events: Seq<SourceEvent>, event: SourceEvent)
    ensures
        nested_with(events, event).len() > events.len() && events.len() >= MAX_QUEUED_EVENTS
            ==> !event.lossy() && first_lossy(events, 0) is None,
{
    first_lossy_is_lossy(events, 0);
}

proof fn first_lossy_is_lossy(events: Seq<SourceEvent>, from: int)
    requires
        0 <= from,
    ensures
        match first_lossy(events, from) {
            Some(i) => from <= i < events.len() && events[i].lossy(),
            None => forall|j: int| from <= j < events.len() ==> !(#[trigger] events[j]).lossy(),
        },
    decreases events.len() - from,
{
    if from < events.len() {
        first_lossy_is_lossy(events, from + 1);
    }
}

/// No event that must be kept is lost by the nested queue: each that was there still is, and the
/// new one is there.
pub proof fn nested_queue_keeps(events: Seq<SourceEvent>, event: SourceEvent, kept: SourceEvent)
    requires
        !kept.lossy(),
        events.contains(kept) || kept == event,
    ensures
        nested_with(events, event).contains(kept),
        occurrences(nested_with(events, event), kept) >= occurrences(events, kept),
{
    broadcast use vstd::seq_lib::group_to_multiset_ensures;

    first_lossy_is_lossy(events, 0);
    let after = nested_with(events, event);
    if event.coalesces() && events.contains(event) {
    } else {
        assert(after.last() == event || after == events);
        let rest = match first_lossy(events, 0) {
            Some(i) => if events.len() < MAX_QUEUED_EVENTS {
                events
            } else {
                events.remove(i)
            },
            None => events,
        };
        if after != events || events.len() < MAX_QUEUED_EVENTS {
            assert(after == rest.push(event));
            assert(after[rest.len() as int] == event);
            if events.contains(kept) {
                let j = events.index_of(kept);
                match first_lossy(events, 0) {
                    Some(i) => {
                        if events.len() >= MAX_QUEUED_EVENTS {
                            assert(rest[if j < i {
                                j
                            } else {
                                j - 1
                            }] == kept);
                            assert(after[if j < i {
                                j
                            } else {
                                j - 1
                            }] == kept);
                        } else {
                            assert(after[j] == kept);
                        }
                    },
                    None => {
                        assert(after[j] == kept);
                    },
                }
            }
        }
    }
}

/// Nothing but motion is lost by the native queue: an event that was there still is, or is to be
/// dealt with at once, and so is the new one.
pub proof fn native_queue_keeps(events: Seq<SourceEvent>, event: SourceEvent, kept: SourceEvent)
    requires
        !kept.lossy(),
        events.contains(kept) || kept == event,
    ensures
        native_with(events, event).0.contains(kept) || (native_with(events, event).1
            matches AdmissionView::Queued { reduced } && reduced.contains(kept)),
{
    let (after, admission) = native_with(events, event);
    if admission is Queued {
        assert(after[after.len() - 1] == event);
        if events.contains(kept) {
            let j = events.index_of(kept);
            if events.len() < MAX_QUEUED_EVENTS {
                assert(after[j] == kept);
            } else if j < batch(events) {
                assert(events.take(batch(events))[j] == kept);
            } else {
                assert(after[j - batch(events)] == kept);
            }
        }
    }
}

} // verus!
