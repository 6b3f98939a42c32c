//! What becomes of the bytes and the requests of clients, and who gets which answer.

use crate::connection;
use crate::connection::{ConnectionMode, ConnectionView, FrameView};
use crate::ipc;
use crate::server;
use crate::wire::v1;
use vstd::prelude::*;

verus! {

/// The bytes of some frames, one after the other.
pub open spec fn joined_bytes(frames: Seq<FrameView>) -> Seq<u8>
    decreases frames.len(),
{
    if frames.len() == 0 {
        Seq::empty()
    } else {
        frames[0].bytes + joined_bytes(frames.skip(1))
    }
}

/// What a connection has yet to write.
pub open spec fn unwritten(client: ConnectionView) -> Seq<u8> {
    joined_bytes(client.output).skip(client.output_offset as int)
}

proof fn joining_one_more(frames: Seq<FrameView>, frame: FrameView)
    ensures
        joined_bytes(frames.push(frame)) == joined_bytes(frames) + frame.bytes,
    decreases frames.len(),
{
    let all = frames.push(frame);
    if frames.len() == 0 {
        assert(all.skip(1) =~= Seq::empty());
        assert(joined_bytes(all.skip(1)) =~= Seq::empty());
        assert(joined_bytes(all) =~= joined_bytes(frames) + frame.bytes);
    } else {
        joining_one_more(frames.skip(1), frame);
        assert(all.skip(1) =~= frames.skip(1).push(frame));
        assert(joined_bytes(all) =~= joined_bytes(frames) + frame.bytes);
    }
}

proof fn offsets_are_within(client: ConnectionView)
    requires
        client.sound(),
    ensures
        client.output_offset <= joined_bytes(client.output).len(),
{
}

/// What is written to a client are the bytes that were queued for it, in their order, each once:
/// a write takes as many as it says from the front, and what is queued comes behind all else. A
/// write of nothing is the end of the connection.
pub proof fn bytes_are_written_in_order(
    client: ConnectionView,
    written: int,
    frame: Seq<char>,
    is_event: bool,
    now: u64,
)
    requires
        client.sound(),
        client.output.len() > 0,
        client.output[0].bytes.len() <= usize::MAX,
        0 <= written <= client.output[0].bytes.len() - client.output_offset,
    ensures
        written > 0 ==> client.wrote(written, now).1 && unwritten(client.wrote(written, now).0)
            == unwritten(client).skip(written) && client.wrote(written, now).0.last_progress == now,
        written == 0 ==> !client.wrote(written, now).1,
        unwritten(client.queued(frame, is_event, now)) == unwritten(client)
            + vstd::utf8::encode_utf8(frame),
        unwritten(client.event_queued(frame, now)) == unwritten(client) + vstd::utf8::encode_utf8(
            frame,
        ),
        unwritten(client.answered(frame, is_event, now).0) == unwritten(client)
            + vstd::utf8::encode_utf8(frame),
{
    offsets_are_within(client);
    let bytes = vstd::utf8::encode_utf8(frame);
    let all = joined_bytes(client.output);
    let offset = client.output_offset as int;
    joining_one_more(client.output, FrameView { bytes, is_event });
    joining_one_more(client.output, FrameView { bytes, is_event: true });
    joining_one_more(client.output, FrameView { bytes, is_event: false });
    assert((all + bytes).skip(offset) =~= all.skip(offset) + bytes);
    if written > 0 {
        let after = client.wrote(written, now).0;
        let first = client.output[0].bytes;
        let rest = joined_bytes(client.output.skip(1));
        assert(all == first + rest);
        if offset + written == first.len() {
            assert(after.output == client.output.skip(1));
            assert((first + rest).skip(offset).skip(written) =~= rest);
            assert(rest.skip(0) =~= rest);
        } else {
            assert(after.output_offset == offset + written);
            assert(all.skip(offset).skip(written) =~= all.skip(offset + written));
        }
    }
}

/// A line ends at the first line feed.
pub proof fn lines_end_at_the_first_feed(input: Seq<u8>, from: int)
    requires
        0 <= from <= input.len(),
    ensures
        match connection::line_end(input, from) {
            Some(i) => from <= i < input.len() && input[i] == 10 && forall|j: int|
                from <= j < i ==> input[j] != 10,
            None => forall|j: int| from <= j < input.len() ==> input[j] != 10,
        },
    decreases input.len() - from,
{
    if from < input.len() {
        lines_end_at_the_first_feed(input, from + 1);
    }
}

/// What is read stands behind what was read before. Only where it is more than a request may
/// have, and no line of it is whole, is it thrown away, which is remembered.
pub proof fn bytes_are_read_in_order(client: ConnectionView, bytes: Seq<u8>, now: u64)
    ensures
        ({
            let after = client.received(bytes, now);
            let whole = exists|i: int|
                0 <= i < (client.input + bytes).len() && #[trigger] (client.input + bytes)[i] == 10;
            &&& after.last_progress == now
            &&& client.input.len() + bytes.len() <= connection::MAX_REQUEST_BYTES || whole
                ==> after.input == client.input + bytes && after.discard_oversized
                == client.discard_oversized
            &&& client.input.len() + bytes.len() > connection::MAX_REQUEST_BYTES && !whole
                ==> after.input.len() == 0 && after.discard_oversized
            &&& after.output == client.output && after.mode == client.mode && after.version
                == client.version && after.awaiting_response == client.awaiting_response
        }),
{
    lines_end_at_the_first_feed(client.input + bytes, 0);
}

/// Requests are taken one line at a time, from the front, and the rest is left. None is taken
/// while an answer is owed, nor from a client that follows the events. A line that is too long,
/// or the end of one that was, is refused, and the connection ends when that is said.
pub proof fn requests_are_taken_in_order(client: ConnectionView, handled: usize, sequence: u64)
    ensures
        ({
            let (after, step) = client.stepped(handled, sequence);
            let whole = exists|i: int| 0 <= i < client.input.len() && #[trigger] client.input[i] == 10;
            &&& step is Idle <==> handled >= connection::MAX_FRAMES_PER_CONNECTION
                || client.awaiting_response || client.mode == ConnectionMode::Subscriber || !whole
            &&& step is Idle ==> after == client
            &&& !(step is Idle) ==> {
                let taken = client.input.len() - after.input.len();
                let line = client.input.take(taken);
                &&& taken > 0
                &&& client.input == line + after.input
                &&& line.last() == 10
                &&& forall|j: int| 0 <= j < taken - 1 ==> #[trigger] line[j] != 10
                &&& client.discard_oversized || taken > connection::MAX_REQUEST_BYTES
                    ==> step is Stop && after.close_after_write && !after.discard_oversized
                &&& !client.discard_oversized && taken <= connection::MAX_REQUEST_BYTES ==> (
                step is Stop <==> !vstd::utf8::valid_utf8(line))
                &&& step is Stop ==> after.close_after_write && after.version == client.version
                &&& client.close_after_write ==> after.close_after_write
                &&& after.output == client.output && after.mode == client.mode
                    && after.awaiting_response == client.awaiting_response
            }
        }),
{
    lines_end_at_the_first_feed(client.input, 0);
    let (after, step) = client.stepped(handled, sequence);
    if !(step is Idle) {
        let i = connection::line_end(client.input, 0)->0;
        assert(client.input =~= client.input.take(i + 1) + client.input.skip(i + 1));
        assert(after.input == client.input.skip(i + 1));
        assert(client.input.take(i + 1).last() == client.input[i]);
        assert forall|j: int| 0 <= j < i implies #[trigger] client.input.take(i + 1)[j] != 10 by {
            assert(client.input[j] != 10);
        }
    }
}

/// A client speaks one version. The first request of a version that is spoken settles it, and
/// from then on no other is taken; until then a client may ask which there are.
pub proof fn versions_are_settled_once(
    version: Option<u16>,
    frame: u16,
    payload: Seq<char>,
    sequence: u64,
)
    ensures
        ({
            let (after, decision) = connection::routed(version, frame, payload, sequence);
            &&& decision is Decode ==> frame == ipc::CURRENT_VERSION && after == Some(frame)
                && decision->Decode_payload == payload
            &&& frame == ipc::CURRENT_VERSION && frame != ipc::BOOTSTRAP_VERSION
                ==> decision is Decode
            &&& decision is Bootstrap <==> version is None && frame == ipc::BOOTSTRAP_VERSION
            &&& decision is Bootstrap ==> decision->Bootstrap_payload == payload && after is None
            &&& decision is Reject ==> after == version
            &&& version == Some(ipc::CURRENT_VERSION) ==> after == version
        }),
{
}

/// A connection is kept as long as something is to be done on it, and it has not failed. It
/// goes when nothing more comes from the client and nothing more is owed.
pub proof fn busy_connections_are_kept(
    client: ConnectionView,
    keep: bool,
    input_closed: bool,
    fatal: bool,
)
    ensures
        ({
            let (after, kept) = client.serviced(keep, input_closed, fatal);
            let whole = exists|i: int| 0 <= i < client.input.len() && #[trigger] client.input[i] == 10;
            let busy = client.output.len() > 0 || client.awaiting_response || whole;
            &&& !keep || fatal ==> !kept
            &&& keep && !fatal && busy ==> kept
            &&& keep && !fatal && !busy ==> kept == !(client.close_after_write || input_closed)
            &&& after.input == client.input && after.output == client.output
            &&& after.input_closed == (client.input_closed || input_closed)
        }),
        client.ended().1 == (client.awaiting_response || client.output.len() > 0),
        client.ended().0.input_closed,
        client.ended().1 ==> client.ended().0.close_after_write,
        client.interest().read == !client.input_closed,
        client.interest().hang_up == !client.input_closed,
        client.interest().write == (client.output.len() > 0),
{
    lines_end_at_the_first_feed(client.input, 0);
}

/// An answer frees the client for its next request. The start of a stream makes it a follower of
/// the events, which takes no more requests.
pub proof fn answers_free_the_client(
    client: ConnectionView,
    frame: Seq<char>,
    is_stream: bool,
    now: u64,
    handled: usize,
    sequence: u64,
)
    ensures
        ({
            let (after, more) = client.answered(frame, is_stream, now);
            &&& !after.awaiting_response
            &&& is_stream ==> after.mode == ConnectionMode::Subscriber && !more && after.stepped(
                handled,
                sequence,
            ).1 is Idle
            &&& !is_stream ==> after.mode == client.mode
            &&& handled < connection::MAX_FRAMES_PER_CONNECTION ==> more == !(after.stepped(
                handled,
                sequence,
            ).1 is Idle)
            &&& after.input == client.input && after.queued_events == client.queued_events
        }),
{
    lines_end_at_the_first_feed(client.input, 0);
}

/// A client has taken too long when it has not moved on for the time that it is given, while
/// something waits to be written to it. The time that is waited for is that time.
pub proof fn slow_clients_expire_at_their_deadline(client: ConnectionView, now: u64)
    requires
        client.last_progress + connection::IO_TIMEOUT <= u64::MAX,
    ensures
        client.deadline() - client.last_progress == connection::IO_TIMEOUT,
        client.expired(now) <==> client.output.len() > 0 && client.deadline() <= now,
{
}

/// The time that the server waits for is that of the client that has the least left.
pub proof fn the_server_waits_for_the_first_deadline(
    connections: Map<u64, ConnectionView>,
    keys: Seq<u64>,
    n: int,
)
    requires
        0 <= n <= keys.len(),
    ensures
        match server::earliest(connections, keys, n) {
            Some(time) => {
                &&& exists|i: int|
                    0 <= i < n && connections[#[trigger] keys[i]].output.len() > 0
                        && connections[keys[i]].deadline() == time
                &&& forall|i: int|
                    0 <= i < n && connections[#[trigger] keys[i]].output.len() > 0 ==> time
                        <= connections[keys[i]].deadline()
            },
            None => forall|i: int|
                0 <= i < n ==> connections[#[trigger] keys[i]].output.len() == 0,
        },
    decreases n,
{
    if n > 0 {
        the_server_waits_for_the_first_deadline(connections, keys, n - 1);
        let before = server::earliest(connections, keys, n - 1);
        let next = connections[keys[n - 1]];
        if let Some(time) = server::earliest(connections, keys, n) {
            if before is Some && before->0 == time {
                let i = choose|i: int|
                    0 <= i < n - 1 && connections[#[trigger] keys[i]].output.len() > 0
                        && connections[keys[i]].deadline() == time;
                assert(connections[keys[i]].deadline() == time);
            } else {
                assert(connections[keys[n - 1]].deadline() == time);
            }
        }
    }
}

/// A client that is let in gets an id of its own; the others stay as they are.
pub proof fn clients_get_their_own_ids(state: server::ServerView, now: u64)
    ensures
        ({
            let (after, id) = state.admitted(now);
            &&& id is None ==> after == state
            &&& id matches Some(id) ==> {
                &&& id == state.next_connection
                &&& after.next_connection != id
                &&& after.next_connection != 0
                &&& id < u64::MAX ==> after.next_connection == id + 1
                &&& after.connections.contains_key(id)
                &&& after.connections[id].output.len() == 0 && after.connections[id].input.len()
                    == 0 && after.connections[id].version is None
                    && !after.connections[id].awaiting_response && after.connections[id].mode
                    == ConnectionMode::Commands && after.connections[id].last_progress == now
                &&& forall|k: u64|
                    k != id ==> (#[trigger] after.connections.contains_key(k)
                        == state.connections.contains_key(k)) && after.connections[k]
                        == state.connections[k]
                &&& after.subscribers == state.subscribers && after.commands == state.commands
            }
        }),
{
}

/// Clients that take too long are let go, and no others; who has gone follows no events.
pub proof fn slow_clients_are_let_go(state: server::ServerView, now: u64, id: u64)
    ensures
        ({
            let after = state.expired(now);
            let slow = state.connections[id].output.len() > 0 && now
                - state.connections[id].last_progress >= connection::IO_TIMEOUT;
            &&& after.connections.contains_key(id) <==> state.connections.contains_key(id) && !slow
            &&& after.connections.contains_key(id) ==> after.connections[id]
                == state.connections[id]
            &&& after.subscribers.contains(id) <==> state.subscribers.contains(id)
                && after.connections.contains_key(id)
        }),
{
}

proof fn welcomes_are_in_order(
    subscribers: Set<u64>,
    requests: Seq<u64>,
    n: int,
    sequence: u64,
    snapshot: v1::SnapshotView,
)
    requires
        0 <= n <= requests.len(),
        subscribers.finite(),
    ensures
        ({
            let (after, list) = server::welcomed(subscribers, requests, n, sequence, snapshot);
            &&& list.len() == n
            &&& after.finite()
            &&& forall|i: int|
                0 <= i < n ==> (#[trigger] list[i]).0 == requests[i] && match list[i].1 {
                    v1::ResponseView::Success(success) => success == (
                    v1::SuccessView::EventStream { sequence, snapshot }) && after.contains(
                        requests[i],
                    ),
                    v1::ResponseView::Error(error) => error.code == v1::ErrorCode::Conflict
                        && after.len() >= server::MAX_SUBSCRIBERS,
                }
            &&& subscribers.len() + n <= server::MAX_SUBSCRIBERS ==> forall|i: int|
                0 <= i < n ==> (#[trigger] list[i]).1 is Success
            &&& after.len() <= subscribers.len() + n
            &&& subscribers.subset_of(after)
        }),
    decreases n,
{
    if n > 0 {
        welcomes_are_in_order(subscribers, requests, n - 1, sequence, snapshot);
        let (before, rest) = server::welcomed(subscribers, requests, n - 1, sequence, snapshot);
        let (after, list) = server::welcomed(subscribers, requests, n, sequence, snapshot);
        assert forall|i: int| 0 <= i < n - 1 implies list[i] == #[trigger] rest[i] by {}
    }
}

/// At the end of a tick everyone who waits is answered, in the order in which they asked:
/// commands first, then those who want to follow the events. Who asked for the state gets the
/// snapshot, a command that was done is said to be, one that was refused is told why, and who
/// wants to follow the events may while there is room.
pub proof fn everyone_is_answered(
    state: server::ServerView,
    sequence: u64,
    snapshot: v1::SnapshotView,
)
    requires
        state.subscribers.finite(),
    ensures
        ({
            let (after, list) = state.finished(sequence, Some(snapshot));
            let asked = state.commands.len() as int;
            let more = state.stream_requests.len() as int;
            &&& list.len() == asked + more
            &&& after.commands.len() == 0 && after.stream_requests.len() == 0
            &&& after.published_sequence == sequence
            &&& after.connections == state.connections
            &&& forall|i: int|
                0 <= i < asked ==> (#[trigger] list[i]).0 == state.commands[i].0 && match (
                    state.commands[i].1,
                    list[i].1,
                ) {
                    (
                        v1::ResponseView::Error(error),
                        v1::ResponseView::Error(told),
                    ) => told.code == error.code && told.message == error.message && told.sequence
                        == sequence,
                    (
                        v1::ResponseView::Success(v1::SuccessView::State { .. }),
                        v1::ResponseView::Success(told),
                    ) => told == (v1::SuccessView::State { sequence, snapshot }),
                    (
                        v1::ResponseView::Success(v1::SuccessView::Handled { .. }),
                        v1::ResponseView::Success(told),
                    ) => told == (v1::SuccessView::Handled { sequence }),
                    (one, other) => one == other,
                }
            &&& forall|i: int|
                asked <= i < asked + more ==> (#[trigger] list[i]).0 == state.stream_requests[i
                    - asked] && (list[i].1 is Success <==> list[i].1 == v1::ResponseView::Success(
                    v1::SuccessView::EventStream { sequence, snapshot },
                ))
            &&& state.subscribers.len() + more <= server::MAX_SUBSCRIBERS ==> forall|i: int|
                asked <= i < asked + more ==> (#[trigger] list[i]).1 is Success
                    && after.subscribers.contains(state.stream_requests[i - asked])
            &&& state.subscribers.subset_of(after.subscribers)
        }),
{
    let more = state.stream_requests.len() as int;
    welcomes_are_in_order(state.subscribers, state.stream_requests, more, sequence, snapshot);
    let (after, list) = state.finished(sequence, Some(snapshot));
    let (_, welcomes) = server::welcomed(
        state.subscribers,
        state.stream_requests,
        more,
        sequence,
        snapshot,
    );
    let asked = state.commands.len() as int;
    assert forall|i: int| asked <= i < asked + more implies #[trigger] list[i] == welcomes[i
        - asked] by {}
}

} // verus!
