//! What the server promises its clients.

use crate::connection;
use crate::connection::ConnectionMode;
use crate::ranking;
use crate::server;
use crate::wire::v1;
use vstd::prelude::*;

verus! {

pub open spec fn sequence_of(response: v1::ResponseView) -> u64 {
    match response {
        v1::ResponseView::Success(v1::SuccessView::State { sequence, .. }) => sequence,
        v1::ResponseView::Success(v1::SuccessView::Handled { sequence }) => sequence,
        v1::ResponseView::Success(v1::SuccessView::EventStream { sequence, .. }) => sequence,
        v1::ResponseView::Error(error) => error.sequence,
    }
}

proof fn welcomes_share_the_sequence(
    subscribers: Set<u64>,
    requests: Seq<u64>,
    n: int,
    sequence: u64,
    snapshot: v1::SnapshotView,
)
    requires
        0 <= n <= requests.len(),
    ensures
        server::welcomed(subscribers, requests, n, sequence, snapshot).1.len() == n,
        forall|i: int|
            0 <= i < n ==> sequence_of(
                (#[trigger] server::welcomed(
                    subscribers,
                    requests,
                    n,
                    sequence,
                    snapshot,
                ).1[i]).1,
            ) == sequence,
    decreases n,
{
    if n > 0 {
        welcomes_share_the_sequence(subscribers, requests, n - 1, sequence, snapshot);
    }
}

/// All answers of a tick carry its sequence: a snapshot, a command that was done, one that was
/// refused and the start of a stream of events mark the same point.
pub proof fn answers_share_the_sequence(
    state: server::ServerView,
    frames: Seq<Option<Seq<char>>>,
    exhausted: bool,
    sequence: u64,
    snapshot: Option<v1::SnapshotView>,
    now: u64,
    i: int,
)
    requires
        state.answerable(),
        0 <= i < state.ticked(frames, exhausted, sequence, snapshot, now).1.len(),
    ensures
        sequence_of(state.ticked(frames, exhausted, sequence, snapshot, now).1[i].1) == sequence,
{
    let left = if exhausted {
        state.hung_up()
    } else {
        state
    };
    left.telling_leaves_the_rest(frames, frames.len() as int, now);
    finished_answers_share(left.told_all(frames, frames.len() as int, now), sequence, snapshot, i);
}

proof fn finished_answers_share(
    state: server::ServerView,
    sequence: u64,
    snapshot: Option<v1::SnapshotView>,
    i: int,
)
    requires
        state.answerable(),
        0 <= i < state.finished(sequence, snapshot).1.len(),
    ensures
        sequence_of(state.finished(sequence, snapshot).1[i].1) == sequence,
{
    let requests = state.stream_requests;
    welcomes_share_the_sequence(
        state.subscribers,
        requests,
        requests.len() as int,
        sequence,
        snapshot->0,
    );
    let n = state.commands.len();
    if i < n {
        assert(!server::is_stream(state.commands[i].1));
    } else {
        let welcomes = server::welcomed(
            state.subscribers,
            requests,
            requests.len() as int,
            sequence,
            snapshot->0,
        ).1;
        assert(state.finished(sequence, snapshot).1[i] == welcomes[i - n]);
    }
}

proof fn welcomes_are_limited(
    subscribers: Set<u64>,
    requests: Seq<u64>,
    n: int,
    sequence: u64,
    snapshot: v1::SnapshotView,
)
    requires
        subscribers.finite(),
        subscribers.len() <= server::MAX_SUBSCRIBERS,
        0 <= n <= requests.len(),
    ensures
        server::welcomed(subscribers, requests, n, sequence, snapshot).0.finite(),
        server::welcomed(subscribers, requests, n, sequence, snapshot).0.len()
            <= server::MAX_SUBSCRIBERS,
    decreases n,
{
    if n > 0 {
        welcomes_are_limited(subscribers, requests, n - 1, sequence, snapshot);
    }
}

/// There are never more subscribers than may be.
pub proof fn subscribers_are_limited(
    state: server::ServerView,
    frames: Seq<Option<Seq<char>>>,
    exhausted: bool,
    sequence: u64,
    snapshot: Option<v1::SnapshotView>,
    now: u64,
)
    requires
        state.subscribers.finite(),
        state.subscribers.len() <= server::MAX_SUBSCRIBERS,
    ensures
        state.ticked(frames, exhausted, sequence, snapshot, now).0.subscribers.len()
            <= server::MAX_SUBSCRIBERS,
{
    let left = if exhausted {
        state.hung_up()
    } else {
        state
    };
    let told = left.told_all(frames, frames.len() as int, now);
    telling_adds_no_subscribers(left, frames, frames.len() as int, now);
    vstd::set_lib::lemma_len_subset(told.subscribers, state.subscribers);
    welcomes_are_limited(
        told.subscribers,
        told.stream_requests,
        told.stream_requests.len() as int,
        sequence,
        snapshot->0,
    );
    let (after, _) = told.finished(sequence, snapshot);
    vstd::set_lib::lemma_len_subset(after.retained().subscribers, after.subscribers);
}

proof fn telling_adds_no_subscribers(
    state: server::ServerView,
    frames: Seq<Option<Seq<char>>>,
    n: int,
    now: u64,
)
    ensures
        state.told_all(frames, n, now).subscribers.subset_of(state.subscribers),
    decreases n,
{
    if n > 0 {
        telling_adds_no_subscribers(state, frames, n - 1, now);
    }
}

/// An event disconnects only subscribers that lag: every other client stays, those that follow
/// the events with the event queued, the others as they were.
pub proof fn only_laggards_are_disconnected(
    state: server::ServerView,
    frame: Option<Seq<char>>,
    now: u64,
    id: u64,
)
    requires
        state.connections.contains_key(id),
    ensures
        !state.subscribers.contains(id) ==> {
            &&& state.told(frame, now).connections.contains_key(id)
            &&& state.told(frame, now).connections[id] == state.connections[id]
        },
        state.subscribers.contains(id) && frame is Some && state.connections[id].queued_events
            < connection::SUBSCRIBER_QUEUE ==> {
            &&& state.told(frame, now).subscribers.contains(id)
            &&& state.told(frame, now).connections.contains_key(id)
            &&& state.told(frame, now).connections[id].output.last().bytes
                == vstd::utf8::encode_utf8(frame->0)
        },
        state.subscribers.contains(id) && state.connections[id].queued_events
            >= connection::SUBSCRIBER_QUEUE ==> {
            &&& !state.told(frame, now).subscribers.contains(id)
            &&& !state.told(frame, now).connections.contains_key(id)
        },
{
}

/// The start of a stream takes no place in the queue of events.
pub proof fn handshakes_are_not_counted(
    client: connection::ConnectionView,
    frame: Seq<char>,
    now: u64,
)
    ensures
        client.answered(frame, true, now).0.queued_events == client.queued_events,
{
}

/// Every client stays sound when events are queued.
pub proof fn clients_stay_sound(
    state: server::ServerView,
    frame: Option<Seq<char>>,
    now: u64,
    id: u64,
)
    requires
        forall|k: u64| #[trigger]
            state.connections.contains_key(k) ==> state.connections[k].sound(),
    ensures
        state.told(frame, now).connections.contains_key(id) ==> state.told(
            frame,
            now,
        ).connections[id].sound(),
{
    if state.told(frame, now).connections.contains_key(id) {
        let before = state.connections[id];
        assert(state.connections.contains_key(id));
        if state.subscribers.contains(id) {
            let after = before.event_queued(frame->0, now);
            assert(after.output.drop_last() =~= before.output);
        }
    }
}

/// What a client was sent is never put out of order: queueing only adds to the end.
pub proof fn frames_keep_their_order(
    client: connection::ConnectionView,
    frame: Seq<char>,
    is_event: bool,
    now: u64,
)
    ensures
        client.output.is_prefix_of(client.queued(frame, is_event, now).output),
        client.output.is_prefix_of(client.event_queued(frame, now).output),
        client.output.is_prefix_of(client.answered(frame, is_event, now).0.output),
{
}

/// The connections that take commands.
pub open spec fn commanders(connections: Map<u64, connection::ConnectionView>) -> Set<u64> {
    connections.dom().filter(|id: u64| connections[id].mode == ConnectionMode::Commands)
}

proof fn commanders_are_counted(
    connections: Map<u64, connection::ConnectionView>,
    keys: Seq<u64>,
    n: int,
)
    requires
        0 <= n <= keys.len(),
        keys.no_duplicates(),
        keys.to_set() == connections.dom(),
    ensures
        ({
            let counted = commanders(connections).intersect(keys.take(n).to_set());
            counted.finite() && counted.len() == server::commanding(connections, keys, n)
        }),
    decreases n,
{
    let all = commanders(connections);
    let counted = all.intersect(keys.take(n).to_set());
    if n == 0 {
        assert(keys.take(0).to_set() =~= Set::<u64>::empty());
        assert(counted =~= Set::<u64>::empty());
    } else {
        commanders_are_counted(connections, keys, n - 1);
        let before = all.intersect(keys.take(n - 1).to_set());
        let id = keys[n - 1];
        assert(keys.to_set().contains(id));
        assert(keys.take(n) =~= keys.take(n - 1).push(id));
        assert(keys.take(n).to_set() =~= keys.take(n - 1).to_set().insert(id)) by {
            assert forall|k: u64| keys.take(n).contains(k) == (keys.take(n - 1).contains(k) || k
                == id) by {
                if keys.take(n - 1).contains(k) {
                    assert(keys.take(n)[keys.take(n - 1).index_of(k)] == k);
                }
                if k == id {
                    assert(keys.take(n)[n - 1] == k);
                }
                if keys.take(n).contains(k) && k != id {
                    assert(keys.take(n - 1)[keys.take(n).index_of(k)] == k);
                }
            }
        }
        assert(!before.contains(id)) by {
            if keys.take(n - 1).contains(id) {
                let j = keys.take(n - 1).index_of(id);
                assert(keys[j] == keys[n - 1]);
            }
        }
        if all.contains(id) {
            assert(counted =~= before.insert(id));
        } else {
            assert(counted =~= before);
        }
    }
}

/// There are never more connections that take commands than may be: one more is let in only while
/// there is room.
pub proof fn command_connections_are_limited(state: server::ServerView, now: u64)
    requires
        state.connections.dom().finite(),
        commanders(state.connections).len() <= server::MAX_COMMAND_CONNECTIONS,
    ensures
        commanders(state.admitted(now).0.connections).len() <= server::MAX_COMMAND_CONNECTIONS,
        state.admitted(now).1 is Some <==> commanders(state.connections).len()
            < server::MAX_COMMAND_CONNECTIONS,
{
    let keys = state.keys();
    let n = keys.len() as int;
    ranking::ranking_ranks(state.connections.dom(), |id: u64| 0);
    commanders_are_counted(state.connections, keys, n);
    let all = commanders(state.connections);
    assert(keys.take(n) =~= keys);
    assert(all.intersect(keys.to_set()) =~= all);
    let after = commanders(state.admitted(now).0.connections);
    let id = state.next_connection;
    assert(after.subset_of(all.insert(id)));
    vstd::set_lib::lemma_len_subset(after, all.insert(id));
}

/// The frames of the first `n` events of a list.
pub open spec fn event_frames(frames: Seq<Option<Seq<char>>>, n: int) -> Seq<connection::FrameView> {
    Seq::new(
        n as nat,
        |i: int|
            connection::FrameView {
                bytes: vstd::utf8::encode_utf8(frames[i]->0),
                is_event: true,
            },
    )
}

proof fn events_reach_subscribers(
    state: server::ServerView,
    frames: Seq<Option<Seq<char>>>,
    n: int,
    now: u64,
    id: u64,
)
    requires
        state.connections.contains_key(id),
        0 <= n <= frames.len(),
        forall|i: int| 0 <= i < n ==> (#[trigger] frames[i]) is Some,
        state.connections[id].queued_events <= connection::SUBSCRIBER_QUEUE,
    ensures
        ({
            let after = state.told_all(frames, n, now);
            let before = state.connections[id];
            &&& !state.subscribers.contains(id) ==> {
                &&& after.connections.contains_key(id)
                &&& after.connections[id] == before
                &&& !after.subscribers.contains(id)
            }
            &&& state.subscribers.contains(id) && before.queued_events + n
                <= connection::SUBSCRIBER_QUEUE ==> {
                &&& after.connections.contains_key(id)
                &&& after.subscribers.contains(id)
                &&& after.connections[id].output == before.output + event_frames(frames, n)
                &&& after.connections[id].queued_events == before.queued_events + n
            }
            &&& state.subscribers.contains(id) && before.queued_events + n
                > connection::SUBSCRIBER_QUEUE ==> {
                &&& !after.connections.contains_key(id)
                &&& !after.subscribers.contains(id)
            }
        }),
    decreases n,
{
    if n > 0 {
        events_reach_subscribers(state, frames, n - 1, now, id);
        let middle = state.told_all(frames, n - 1, now);
        let before = state.connections[id];
        assert(frames[n - 1] is Some);
        if state.subscribers.contains(id) && before.queued_events + n
            <= connection::SUBSCRIBER_QUEUE {
            let after = state.told_all(frames, n, now);
            assert(after.connections[id].output =~= before.output + event_frames(frames, n));
        }
    } else {
        assert(state.connections[id].output + event_frames(frames, 0)
            =~= state.connections[id].output);
    }
}

/// The end of a tick parts the events before it from those after it. Who followed the events is
/// queued all events of the tick, in their order, or is disconnected when too many wait. Every
/// other client, one that asks to follow them from now on too, is queued none of them.
pub proof fn ticks_part_the_events(
    state: server::ServerView,
    frames: Seq<Option<Seq<char>>>,
    sequence: u64,
    snapshot: Option<v1::SnapshotView>,
    now: u64,
    id: u64,
)
    requires
        state.connections.contains_key(id),
        forall|i: int| 0 <= i < frames.len() ==> (#[trigger] frames[i]) is Some,
        state.connections[id].queued_events <= connection::SUBSCRIBER_QUEUE,
    ensures
        ({
            let after = state.ticked(frames, false, sequence, snapshot, now).0;
            let before = state.connections[id];
            let n = frames.len() as int;
            &&& after.published_sequence == sequence
            &&& !state.subscribers.contains(id) ==> after.connections.contains_key(id)
                && after.connections[id] == before
            &&& state.subscribers.contains(id) && before.queued_events + n
                <= connection::SUBSCRIBER_QUEUE ==> after.connections.contains_key(id)
                && after.subscribers.contains(id) && after.connections[id].output == before.output
                + event_frames(frames, n)
            &&& state.subscribers.contains(id) && before.queued_events + n
                > connection::SUBSCRIBER_QUEUE ==> !after.connections.contains_key(id)
                && !after.subscribers.contains(id)
        }),
{
    let n = frames.len() as int;
    events_reach_subscribers(state, frames, n, now, id);
    let told = state.told_all(frames, n, now);
    welcomes_keep(told.subscribers, told.stream_requests, told.stream_requests.len() as int, sequence, snapshot->0, id);
}

proof fn welcomes_keep(
    subscribers: Set<u64>,
    requests: Seq<u64>,
    n: int,
    sequence: u64,
    snapshot: v1::SnapshotView,
    id: u64,
)
    ensures
        subscribers.contains(id) ==> server::welcomed(
            subscribers,
            requests,
            n,
            sequence,
            snapshot,
        ).0.contains(id),
    decreases n,
{
    if n > 0 {
        welcomes_keep(subscribers, requests, n - 1, sequence, snapshot, id);
    }
}

/// Where the sequences are exhausted, whoever follows the events is disconnected.
pub proof fn exhausted_sequences_end_streams(
    state: server::ServerView,
    frames: Seq<Option<Seq<char>>>,
    sequence: u64,
    snapshot: Option<v1::SnapshotView>,
    now: u64,
    id: u64,
)
    requires
        state.subscribers.contains(id),
    ensures
        !state.ticked(frames, true, sequence, snapshot, now).0.connections.contains_key(id),
{
    let left = state.hung_up();
    gone_stay_gone(left, frames, frames.len() as int, now, id);
}

proof fn gone_stay_gone(
    state: server::ServerView,
    frames: Seq<Option<Seq<char>>>,
    n: int,
    now: u64,
    id: u64,
)
    requires
        !state.connections.contains_key(id),
    ensures
        !state.told_all(frames, n, now).connections.contains_key(id),
    decreases n,
{
    if n > 0 {
        gone_stay_gone(state, frames, n - 1, now, id);
    }
}

} // verus!
