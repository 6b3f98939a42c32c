//! The server's side of the protocol: who is connected, what waits for an answer, and who follows
//! the events.

use crate::connection;
use crate::connection::{Connection, ConnectionMode};
use crate::id_map::{IdMap, IdSet};
use crate::ranking;
use crate::text;
use crate::wire::v1;
use crate::wire::v1::{DesktopSnapshot, Error, ErrorCode, Response, Success};
use vstd::prelude::*;

verus! {

pub const MAX_COMMAND_CONNECTIONS: usize = 128;

pub const MAX_SUBSCRIBERS: usize = 64;

/// A command that was done, with its answer but for the sequence and the snapshot.
#[derive(Debug)]
pub struct PendingCommand {
    pub connection: u64,
    pub response: Response,
}

#[derive(Debug)]
pub struct IpcServer {
    pub connections: IdMap<Connection>,
    pub commands: Vec<PendingCommand>,
    pub stream_requests: Vec<u64>,
    pub subscribers: IdSet,
    pub published_sequence: u64,
    /// The id of the next connection; zero is that of none.
    pub next_connection: u64,
}

#[verifier::ext_equal]
pub struct ServerView {
    pub connections: Map<u64, connection::ConnectionView>,
    pub commands: Seq<(u64, v1::ResponseView)>,
    pub stream_requests: Seq<u64>,
    pub subscribers: Set<u64>,
    pub published_sequence: u64,
    pub next_connection: u64,
}

pub open spec fn pending_views(list: Seq<PendingCommand>) -> Seq<(u64, v1::ResponseView)> {
    Seq::new(list.len(), |i: int| (list[i].connection, list[i].response@))
}

impl View for IpcServer {
    type V = ServerView;

    open spec fn view(&self) -> ServerView {
        ServerView {
            connections: self.connections@,
            commands: pending_views(self.commands@),
            stream_requests: self.stream_requests@,
            subscribers: self.subscribers@,
            published_sequence: self.published_sequence,
            next_connection: self.next_connection,
        }
    }
}

/// The connections of a list that take commands.
pub open spec fn commanding(
    connections: Map<u64, connection::ConnectionView>,
    keys: Seq<u64>,
    n: int,
) -> nat
    decreases n,
{
    if n <= 0 {
        0
    } else {
        commanding(connections, keys, n - 1) + if connections[keys[n - 1]].mode
            == ConnectionMode::Commands {
            1nat
        } else {
            0
        }
    }
}

/// The earliest time at which one of the first `n` connections of a list has taken too long.
pub open spec fn earliest(
    connections: Map<u64, connection::ConnectionView>,
    keys: Seq<u64>,
    n: int,
) -> Option<u64>
    decreases n,
{
    if n <= 0 {
        None
    } else {
        let before = earliest(connections, keys, n - 1);
        let next = connections[keys[n - 1]];
        if !next.wants_write() {
            before
        } else {
            match before {
                Some(time) => if time <= next.deadline() {
                    Some(time)
                } else {
                    Some(next.deadline())
                },
                None => Some(next.deadline()),
            }
        }
    }
}

/// An answer with the sequence and the snapshot of the tick in which it is given.
pub open spec fn finalized(
    response: v1::ResponseView,
    sequence: u64,
    snapshot: Option<v1::SnapshotView>,
) -> v1::ResponseView {
    match response {
        v1::ResponseView::Success(v1::SuccessView::State { .. }) => v1::ResponseView::Success(
            v1::SuccessView::State { sequence, snapshot: snapshot->0 },
        ),
        v1::ResponseView::Success(v1::SuccessView::Handled { .. }) => v1::ResponseView::Success(
            v1::SuccessView::Handled { sequence },
        ),
        v1::ResponseView::Success(v1::SuccessView::EventStream { .. }) => response,
        v1::ResponseView::Error(error) => v1::ResponseView::Error(
            v1::ErrorView { sequence, ..error },
        ),
    }
}

pub open spec fn snapshot_view(snapshot: Option<&DesktopSnapshot>) -> Option<v1::SnapshotView> {
    match snapshot {
        Some(snapshot) => Some(snapshot@),
        None => None,
    }
}

/// An answer with the sequence and the snapshot of the tick in which it is given.
pub fn finalize_response(response: Response, sequence: u64, snapshot: Option<&DesktopSnapshot>) -> (r:
    Response)
    requires
        response@ matches v1::ResponseView::Success(success) ==> !(success is EventStream) && (
        success is State ==> snapshot is Some),
    ensures
        r@ == finalized(response@, sequence, snapshot_view(snapshot)),
{
    match response {
        Response::Success(success) => match success {
            Success::State { snapshot: earlier, .. } => {
                let snapshot: DesktopSnapshot = match snapshot {
                    Some(snapshot) => snapshot.clone(),
                    None => {
                        assert(false);
                        earlier
                    },
                };
                Response::Success(Success::State { sequence, snapshot })
            },
            Success::Handled { .. } => Response::Success(Success::Handled { sequence }),
            Success::EventStream { sequence, snapshot } => Response::Success(
                Success::EventStream { sequence, snapshot },
            ),
        },
        Response::Error(error) => Response::Error(
            Error { code: error.code, message: error.message, sequence },
        ),
    }
}

/// Whether an event cannot be queued for a subscriber: it has gone, the event could not be
/// written down, or too many wait already.
pub open spec fn lags(
    connections: Map<u64, connection::ConnectionView>,
    id: u64,
    frame: Option<Seq<char>>,
) -> bool {
    !connections.contains_key(id) || frame is None || connections[id].queued_events
        >= connection::SUBSCRIBER_QUEUE
}

/// The connections when an event has been queued for the subscribers, and those that lag have
/// been disconnected.
pub open spec fn informed(
    connections: Map<u64, connection::ConnectionView>,
    subscribers: Set<u64>,
    frame: Option<Seq<char>>,
    now: u64,
) -> Map<u64, connection::ConnectionView> {
    Map::new(
        |k: u64|
            connections.contains_key(k) && !(subscribers.contains(k) && lags(
                connections,
                k,
                frame,
            )),
        |k: u64|
            if subscribers.contains(k) {
                connections[k].event_queued(frame->0, now)
            } else {
                connections[k]
            },
    )
}

/// The subscribers that do not lag.
pub open spec fn keeping_up(
    connections: Map<u64, connection::ConnectionView>,
    subscribers: Set<u64>,
    frame: Option<Seq<char>>,
) -> Set<u64> {
    subscribers.filter(|k: u64| !lags(connections, k, frame))
}

/// The answers to a list of commands.
pub open spec fn answers(
    commands: Seq<(u64, v1::ResponseView)>,
    sequence: u64,
    snapshot: Option<v1::SnapshotView>,
) -> Seq<(u64, v1::ResponseView)> {
    Seq::new(
        commands.len(),
        |i: int| (commands[i].0, finalized(commands[i].1, sequence, snapshot)),
    )
}

/// The subscribers after the first `n` of a list have asked to be, and the answers to them. There
/// is a limit to how many there may be.
pub open spec fn welcomed(
    subscribers: Set<u64>,
    requests: Seq<u64>,
    n: int,
    sequence: u64,
    snapshot: v1::SnapshotView,
) -> (Set<u64>, Seq<(u64, v1::ResponseView)>)
    decreases n,
{
    if n <= 0 {
        (subscribers, Seq::empty())
    } else {
        let (before, list) = welcomed(subscribers, requests, n - 1, sequence, snapshot);
        if before.len() >= MAX_SUBSCRIBERS {
            (
                before,
                list.push(
                    (
                        requests[n - 1],
                        v1::ResponseView::Error(
                            v1::ErrorView {
                                code: ErrorCode::Conflict,
                                message: "event stream subscriber limit reached"@,
                                sequence,
                            },
                        ),
                    ),
                ),
            )
        } else {
            (
                before.insert(requests[n - 1]),
                list.push(
                    (
                        requests[n - 1],
                        v1::ResponseView::Success(
                            v1::SuccessView::EventStream { sequence, snapshot },
                        ),
                    ),
                ),
            )
        }
    }
}

impl ServerView {
    pub open spec fn fresh() -> Self {
        ServerView {
            connections: Map::empty(),
            commands: Seq::empty(),
            stream_requests: Seq::empty(),
            subscribers: Set::empty(),
            published_sequence: 0,
            next_connection: 1,
        }
    }

    pub open spec fn keys(self) -> Seq<u64> {
        ranking::ascending(self.connections.dom())
    }

    /// The server when a client has connected, and the id of the connection unless there are too
    /// many already.
    pub open spec fn admitted(self, now: u64) -> (Self, Option<u64>) {
        if commanding(self.connections, self.keys(), self.keys().len() as int)
            >= MAX_COMMAND_CONNECTIONS {
            (self, None)
        } else {
            (
                ServerView {
                    connections: self.connections.insert(
                        self.next_connection,
                        connection::ConnectionView::opened(now),
                    ),
                    next_connection: if self.next_connection == u64::MAX {
                        1
                    } else {
                        (self.next_connection + 1) as u64
                    },
                    ..self
                },
                Some(self.next_connection),
            )
        }
    }

    /// The server without the subscribers that have gone.
    pub open spec fn retained(self) -> Self {
        ServerView {
            subscribers: self.subscribers.intersect(self.connections.dom()),
            ..self
        }
    }

    /// The server without a connection.
    pub open spec fn without(self, id: u64) -> Self {
        ServerView { connections: self.connections.remove(id), ..self }
    }

    /// The server without the clients that have taken too long.
    pub open spec fn expired(self, now: u64) -> Self {
        ServerView {
            connections: Map::new(
                |k: u64| self.connections.contains_key(k) && !self.connections[k].expired(now),
                |k: u64| self.connections[k],
            ),
            ..self
        }.retained()
    }

    /// The server when an event has been queued for its subscribers.
    pub open spec fn told(self, frame: Option<Seq<char>>, now: u64) -> Self {
        ServerView {
            connections: informed(self.connections, self.subscribers, frame, now),
            subscribers: keeping_up(self.connections, self.subscribers, frame),
            ..self
        }
    }

    /// The server when the first `n` events of a list have been queued.
    pub open spec fn told_all(self, frames: Seq<Option<Seq<char>>>, n: int, now: u64) -> Self
        decreases n,
    {
        if n <= 0 {
            self
        } else {
            self.told_all(frames, n - 1, now).told(frames[n - 1], now)
        }
    }

    /// The server without its subscribers.
    pub open spec fn hung_up(self) -> Self {
        ServerView {
            connections: self.connections.remove_keys(self.subscribers),
            subscribers: Set::empty(),
            ..self
        }
    }

    /// Whether answers wait that need a snapshot.
    pub open spec fn needs_snapshot(self) -> bool {
        self.stream_requests.len() > 0 || exists|i: int|
            0 <= i < self.commands.len() && is_state(#[trigger] self.commands[i].1)
    }

    /// Whether what waits are answers to commands.
    pub open spec fn answerable(self) -> bool {
        forall|i: int| 0 <= i < self.commands.len() ==> !is_stream(#[trigger] self.commands[i].1)
    }

    /// The server at the end of a tick, and what is to be sent to whom.
    pub open spec fn finished(self, sequence: u64, snapshot: Option<v1::SnapshotView>) -> (
        Self,
        Seq<(u64, v1::ResponseView)>,
    ) {
        let (subscribers, welcomes) = welcomed(
            self.subscribers,
            self.stream_requests,
            self.stream_requests.len() as int,
            sequence,
            snapshot->0,
        );
        (
            ServerView {
                commands: Seq::empty(),
                stream_requests: Seq::empty(),
                subscribers,
                published_sequence: sequence,
                ..self
            },
            answers(self.commands, sequence, snapshot) + welcomes,
        )
    }
}

impl ServerView {
    /// The server at the end of a tick with events, and what is to be sent to whom.
    pub open spec fn ticked(
        self,
        frames: Seq<Option<Seq<char>>>,
        exhausted: bool,
        sequence: u64,
        snapshot: Option<v1::SnapshotView>,
        now: u64,
    ) -> (Self, Seq<(u64, v1::ResponseView)>) {
        let left = if exhausted {
            self.hung_up()
        } else {
            self
        };
        let (after, list) = left.told_all(frames, frames.len() as int, now).finished(
            sequence,
            snapshot,
        );
        (after.retained(), list)
    }

    /// Events change nothing but the connections and who follows the events.
    pub proof fn telling_leaves_the_rest(self, frames: Seq<Option<Seq<char>>>, n: int, now: u64)
        ensures
            self.told_all(frames, n, now) == (ServerView {
                connections: self.told_all(frames, n, now).connections,
                subscribers: self.told_all(frames, n, now).subscribers,
                ..self
            }),
        decreases n,
    {
        if n > 0 {
            self.telling_leaves_the_rest(frames, n - 1, now);
        }
    }
}

pub open spec fn is_state(response: v1::ResponseView) -> bool {
    response matches v1::ResponseView::Success(success) && success is State
}

pub open spec fn is_stream(response: v1::ResponseView) -> bool {
    response matches v1::ResponseView::Success(success) && success is EventStream
}

/// One more item of a list is that item more.
proof fn one_more(list: Seq<u64>, i: int, k: u64)
    requires
        0 <= i < list.len(),
    ensures
        list.take(i + 1).contains(k) == (list.take(i).contains(k) || k == list[i]),
{
    let (before, after) = (list.take(i), list.take(i + 1));
    assert(after =~= before.push(list[i]));
    if before.contains(k) {
        let j = before.index_of(k);
        assert(after[j] == k);
    }
    if after.contains(k) {
        let j = after.index_of(k);
        if j < i {
            assert(before[j] == k);
        }
    }
    assert(after[i] == list[i]);
}

impl IpcServer {
    pub fn new() -> (r: Self)
        ensures
            r@ == ServerView::fresh(),
    {
        let r = IpcServer {
            connections: IdMap::new(),
            commands: Vec::new(),
            stream_requests: Vec::new(),
            subscribers: IdSet::new(),
            published_sequence: 0,
            next_connection: 1,
        };
        assert(r@ =~= ServerView::fresh());
        r
    }

    fn count_commanding(&self) -> (r: usize)
        ensures
            r == commanding(self@.connections, self@.keys(), self@.keys().len() as int),
    {
        let keys: Vec<u64> = self.connections.keys();
        let mut count: usize = 0;
        let mut i: usize = 0;
        while i < keys.len()
            invariant
                i <= keys@.len(),
                keys@ == self@.keys(),
                keys@.to_set() == self@.connections.dom(),
                count <= i,
                count == commanding(self@.connections, keys@, i as int),
            decreases keys@.len() - i,
        {
            assert(keys@.to_set().contains(keys@[i as int]));
            if let Some(connection) = self.connections.get(keys[i]) {
                if let ConnectionMode::Commands = connection.mode {
                    count = count + 1;
                }
            }
            i = i + 1;
        }
        count
    }

    /// Takes in a client, unless there are too many already.
    pub fn connect(&mut self, now: u64) -> (r: Option<u64>)
        ensures
            (final(self)@, r) == old(self)@.admitted(now),
    {
        if self.count_commanding() >= MAX_COMMAND_CONNECTIONS {
            return None;
        }
        let id: u64 = self.next_connection;
        self.next_connection = if id == u64::MAX { 1 } else { id + 1 };
        self.connections.insert(id, Connection::new(now));
        Some(id)
    }

    pub fn remove_connection(&mut self, id: u64)
        ensures
            final(self)@ == old(self)@.without(id),
    {
        self.connections.remove(id);
    }

    /// Forgets the subscribers that have gone.
    pub fn retain_live_subscribers(&mut self)
        ensures
            final(self)@ == old(self)@.retained(),
    {
        let ids: Vec<u64> = self.subscribers.ids();
        let ghost all = self@.subscribers;
        let mut i: usize = 0;
        while i < ids.len()
            invariant
                i <= ids@.len(),
                ids@.to_set() == all,
                self@ == (ServerView { subscribers: self@.subscribers, ..old(self)@ }),
                forall|k: u64|
                    self@.subscribers.contains(k) == (all.contains(k) && (
                    self@.connections.contains_key(k) || !ids@.take(i as int).contains(k))),
            decreases ids@.len() - i,
        {
            let id: u64 = ids[i];
            if !self.connections.contains_key(id) {
                self.subscribers.remove(id);
            }
            i = i + 1;
            assert forall|k: u64|
                self@.subscribers.contains(k) == (all.contains(k) && (
                self@.connections.contains_key(k) || !ids@.take(i as int).contains(k))) by {
                one_more(ids@, i - 1, k);
            }
        }
        assert(ids@.take(i as int) =~= ids@);
        assert(self@.subscribers =~= old(self)@.retained().subscribers) by {
            assert forall|k: u64| all.contains(k) implies ids@.contains(k) by {
                assert(ids@.to_set().contains(k));
            }
        }
    }

    /// Whether something still has to reach a client.
    pub fn has_pending_output(&self) -> (r: bool)
        ensures
            r == exists|k: u64|
                self@.connections.contains_key(k) && (#[trigger] self@.connections[k]).wants_write(),
    {
        let keys: Vec<u64> = self.connections.keys();
        let mut i: usize = 0;
        while i < keys.len()
            invariant
                i <= keys@.len(),
                keys@.to_set() == self@.connections.dom(),
                forall|j: int|
                    0 <= j < i ==> !self@.connections[#[trigger] keys@[j]].wants_write(),
            decreases keys@.len() - i,
        {
            assert(keys@.to_set().contains(keys@[i as int]));
            if let Some(connection) = self.connections.get(keys[i]) {
                if connection.wants_write() {
                    assert(self@.connections[keys@[i as int]].wants_write());
                    return true;
                }
            }
            i = i + 1;
        }
        assert forall|k: u64| self@.connections.contains_key(k) implies !(
        #[trigger] self@.connections[k]).wants_write() by {
            assert(keys@.to_set().contains(k));
            let j = choose|j: int| 0 <= j < keys@.len() && keys@[j] == k;
            assert(keys@[j] == k);
        }
        false
    }

    /// When the next client will have taken too long.
    pub fn next_timeout(&self) -> (r: Option<u64>)
        ensures
            r == earliest(self@.connections, self@.keys(), self@.keys().len() as int),
    {
        let keys: Vec<u64> = self.connections.keys();
        let mut best: Option<u64> = None;
        let mut i: usize = 0;
        while i < keys.len()
            invariant
                i <= keys@.len(),
                keys@ == self@.keys(),
                keys@.to_set() == self@.connections.dom(),
                best == earliest(self@.connections, keys@, i as int),
            decreases keys@.len() - i,
        {
            assert(keys@.to_set().contains(keys@[i as int]));
            if let Some(connection) = self.connections.get(keys[i]) {
                if connection.wants_write() {
                    let deadline: u64 = connection.deadline();
                    best = match best {
                        Some(time) => if time <= deadline {
                            Some(time)
                        } else {
                            Some(deadline)
                        },
                        None => Some(deadline),
                    };
                }
            }
            i = i + 1;
        }
        best
    }

    /// Disconnects the clients that have taken too long.
    pub fn expire(&mut self, now: u64)
        ensures
            final(self)@ == old(self)@.expired(now),
    {
        let keys: Vec<u64> = self.connections.keys();
        let ghost all = self@.connections;
        let ghost goal = Map::new(
            |k: u64| all.contains_key(k) && !all[k].expired(now),
            |k: u64| all[k],
        );
        let mut i: usize = 0;
        while i < keys.len()
            invariant
                i <= keys@.len(),
                keys@.to_set() == all.dom(),
                keys@.no_duplicates(),
                self@ == (ServerView { connections: self@.connections, ..old(self)@ }),
                forall|k: u64| #[trigger]
                    self@.connections.contains_key(k) == (all.contains_key(k) && (
                    !all[k].expired(now) || !keys@.take(i as int).contains(k))),
                forall|k: u64| #[trigger]
                    self@.connections.contains_key(k) ==> self@.connections[k] == all[k],
            decreases keys@.len() - i,
        {
            let id: u64 = keys[i];
            assert(keys@.to_set().contains(id));
            assert(!keys@.take(i as int).contains(id));
            let late: bool = match self.connections.get(id) {
                Some(connection) => connection.is_expired(now),
                None => false,
            };
            if late {
                self.remove_connection(id);
            }
            i = i + 1;
            assert forall|k: u64| #[trigger]
                self@.connections.contains_key(k) == (all.contains_key(k) && (
                !all[k].expired(now) || !keys@.take(i as int).contains(k))) by {
                one_more(keys@, i - 1, k);
            }
        }
        assert(keys@.take(i as int) =~= keys@);
        assert(self@.connections =~= goal) by {
            assert forall|k: u64| all.contains_key(k) implies keys@.contains(k) by {
                assert(keys@.to_set().contains(k));
            }
        }
        self.retain_live_subscribers();
    }
}

/// The texts of frames, as far as they could be written down.
pub open spec fn frame_texts(frames: Seq<Option<String>>) -> Seq<Option<Seq<char>>> {
    Seq::new(frames.len(), |i: int| text::characters(frames[i]))
}

/// The answers of a list.
pub open spec fn sent(list: Seq<(u64, Response)>) -> Seq<(u64, v1::ResponseView)> {
    Seq::new(list.len(), |i: int| (list[i].0, list[i].1@))
}

impl IpcServer {
    /// Queues one event for one subscriber, or disconnects it.
    fn tell_one(&mut self, id: u64, frame: &Option<String>, now: u64)
        ensures
            final(self)@ == if lags(old(self)@.connections, id, text::characters(*frame)) {
                ServerView {
                    connections: old(self)@.connections.remove(id),
                    subscribers: old(self)@.subscribers.remove(id),
                    ..old(self)@
                }
            } else {
                ServerView {
                    connections: old(self)@.connections.insert(
                        id,
                        old(self)@.connections[id].event_queued(
                            text::characters(*frame)->0,
                            now,
                        ),
                    ),
                    ..old(self)@
                }
            },
    {
        if let Some(frame) = frame {
            if let Some(connection) = self.connections.get_mut(id) {
                if connection.queue_event(frame.as_str(), now) {
                    return;
                }
            }
        }
        self.subscribers.remove(id);
        self.connections.remove(id);
        assert(self@.connections =~= old(self)@.connections.remove(id));
    }

    /// Queues an event for every subscriber. One that lags too far behind is disconnected.
    pub fn tell(&mut self, frame: &Option<String>, now: u64)
        ensures
            final(self)@ == old(self)@.told(text::characters(*frame), now),
    {
        let ids: Vec<u64> = self.subscribers.ids();
        let ghost start = self@;
        let ghost wanted = text::characters(*frame);
        let ghost goal = start.told(wanted, now);
        proof {
            ids_are_distinct(self.subscribers, ids@);
        }
        let mut i: usize = 0;
        while i < ids.len()
            invariant
                i <= ids@.len(),
                ids@.to_set() == start.subscribers,
                ids@.no_duplicates(),
                wanted == text::characters(*frame),
                goal == start.told(wanted, now),
                self@ == (ServerView {
                    connections: self@.connections,
                    subscribers: self@.subscribers,
                    ..start
                }),
                forall|k: u64| #[trigger]
                    self@.connections.contains_key(k) == if ids@.take(i as int).contains(k) {
                        goal.connections.contains_key(k)
                    } else {
                        start.connections.contains_key(k)
                    },
                forall|k: u64| #[trigger]
                    self@.connections.contains_key(k) ==> self@.connections[k] == if ids@.take(
                        i as int,
                    ).contains(k) {
                        goal.connections[k]
                    } else {
                        start.connections[k]
                    },
                forall|k: u64| #[trigger]
                    self@.subscribers.contains(k) == if ids@.take(i as int).contains(k) {
                        goal.subscribers.contains(k)
                    } else {
                        start.subscribers.contains(k)
                    },
            decreases ids@.len() - i,
        {
            let id: u64 = ids[i];
            assert(ids@.to_set().contains(id));
            assert(!ids@.take(i as int).contains(id));
            let ghost before = self@;
            self.tell_one(id, frame, now);
            i = i + 1;
            proof {
                assert(before.connections.contains_key(id) == start.connections.contains_key(id));
                assert(lags(before.connections, id, wanted) == lags(
                    start.connections,
                    id,
                    wanted,
                ));
                assert forall|k: u64| #[trigger]
                    self@.connections.contains_key(k) == if ids@.take(i as int).contains(k) {
                        goal.connections.contains_key(k)
                    } else {
                        start.connections.contains_key(k)
                    } by {
                    one_more(ids@, i - 1, k);
                    assert(before.connections.contains_key(k) || !before.connections.contains_key(k));
                }
                assert forall|k: u64| #[trigger]
                    self@.connections.contains_key(k) implies self@.connections[k]
                    == if ids@.take(i as int).contains(k) {
                    goal.connections[k]
                } else {
                    start.connections[k]
                } by {
                    one_more(ids@, i - 1, k);
                    assert(before.connections.contains_key(k));
                }
                assert forall|k: u64| #[trigger]
                    self@.subscribers.contains(k) == if ids@.take(i as int).contains(k) {
                        goal.subscribers.contains(k)
                    } else {
                        start.subscribers.contains(k)
                    } by {
                    one_more(ids@, i - 1, k);
                    assert(before.subscribers.contains(k) || !before.subscribers.contains(k));
                }
            }
        }
        proof {
            assert(ids@.take(i as int) =~= ids@);
            assert forall|k: u64| ids@.contains(k) == start.subscribers.contains(k) by {
                assert(ids@.to_set().contains(k) == start.subscribers.contains(k));
            }
            assert(self@.connections =~= goal.connections);
            assert(self@.subscribers =~= goal.subscribers);
        }
    }

    /// Queues events for every subscriber, one after the other.
    pub fn publish(&mut self, frames: &Vec<Option<String>>, now: u64)
        ensures
            final(self)@ == old(self)@.told_all(
                frame_texts(frames@),
                frames@.len() as int,
                now,
            ),
    {
        let mut i: usize = 0;
        while i < frames.len()
            invariant
                i <= frames@.len(),
                self@ == old(self)@.told_all(frame_texts(frames@), i as int, now),
            decreases frames@.len() - i,
        {
            self.tell(&frames[i], now);
            i = i + 1;
        }
    }

    /// Disconnects all subscribers, as when no sequence is left for the next event.
    pub fn hang_up(&mut self)
        ensures
            final(self)@ == old(self)@.hung_up(),
    {
        let ids: Vec<u64> = self.subscribers.ids();
        let ghost start = self@;
        let mut i: usize = 0;
        while i < ids.len()
            invariant
                i <= ids@.len(),
                ids@.to_set() == start.subscribers,
                self@ == (ServerView { connections: self@.connections, ..start }),
                forall|k: u64| #[trigger]
                    self@.connections.contains_key(k) == (start.connections.contains_key(k)
                        && !ids@.take(i as int).contains(k)),
                forall|k: u64| #[trigger]
                    self@.connections.contains_key(k) ==> self@.connections[k]
                        == start.connections[k],
            decreases ids@.len() - i,
        {
            let ghost before = self@;
            self.remove_connection(ids[i]);
            i = i + 1;
            assert forall|k: u64| #[trigger]
                self@.connections.contains_key(k) == (start.connections.contains_key(k)
                    && !ids@.take(i as int).contains(k)) by {
                one_more(ids@, i - 1, k);
                assert(before.connections.contains_key(k) || !before.connections.contains_key(k));
            }
        }
        self.subscribers = IdSet::new();
        proof {
            assert(ids@.take(i as int) =~= ids@);
            assert forall|k: u64| ids@.contains(k) == start.subscribers.contains(k) by {
                assert(ids@.to_set().contains(k) == start.subscribers.contains(k));
            }
            assert(self@.connections =~= start.hung_up().connections);
        }
    }

    /// Takes in the answer to a command; it is sent at the end of the tick.
    pub fn add_command(&mut self, connection: u64, response: Response)
        ensures
            final(self)@ == (ServerView {
                commands: old(self)@.commands.push((connection, response@)),
                ..old(self)@
            }),
    {
        self.commands.push(PendingCommand { connection, response });
        assert(self@.commands =~= old(self)@.commands.push((connection, response@)));
    }

    /// Takes in a wish to follow the events; it is granted at the end of the tick.
    pub fn add_stream_request(&mut self, connection: u64)
        ensures
            final(self)@ == (ServerView {
                stream_requests: old(self)@.stream_requests.push(connection),
                ..old(self)@
            }),
    {
        self.stream_requests.push(connection);
    }

    /// Whether answers wait that need a snapshot.
    pub fn needs_snapshot(&self) -> (r: bool)
        ensures
            r == self@.needs_snapshot(),
    {
        if self.stream_requests.len() > 0 {
            return true;
        }
        let mut i: usize = 0;
        while i < self.commands.len()
            invariant
                i <= self.commands@.len(),
                forall|j: int| 0 <= j < i ==> !is_state(#[trigger] self@.commands[j].1),
            decreases self.commands@.len() - i,
        {
            assert(self@.commands[i as int].1 == self.commands@[i as int].response@);
            let state: bool = match &self.commands[i].response {
                Response::Success(Success::State { .. }) => true,
                _ => false,
            };
            if state {
                assert(is_state(self@.commands[i as int].1));
                return true;
            }
            i = i + 1;
        }
        false
    }

    /// Ends a tick: the events of the tick are queued for those who follow them already, and what
    /// waits is answered with the sequence and the snapshot of its end, so that the events that
    /// follow begin where the answers leave off. Where the sequences are exhausted all who follow
    /// the events are disconnected first. Gives what is to be sent to whom.
    pub fn finish_tick(
        &mut self,
        frames: &Vec<Option<String>>,
        exhausted: bool,
        sequence: u64,
        snapshot: Option<&DesktopSnapshot>,
        now: u64,
    ) -> (r: Vec<(u64, Response)>)
        requires
            old(self)@.answerable(),
            old(self)@.needs_snapshot() ==> snapshot is Some,
        ensures
            (final(self)@, sent(r@)) == old(self)@.ticked(
                frame_texts(frames@),
                exhausted,
                sequence,
                snapshot_view(snapshot),
                now,
            ),
    {
        if exhausted {
            self.hang_up();
        }
        let ghost before = self@;
        self.publish(frames, now);
        proof {
            before.telling_leaves_the_rest(frame_texts(frames@), frames@.len() as int, now);
        }
        let list: Vec<(u64, Response)> = self.answer_waiting(sequence, snapshot);
        self.retain_live_subscribers();
        list
    }

    /// Answers what waits. Gives what is to be sent to whom.
    fn answer_waiting(&mut self, sequence: u64, snapshot: Option<&DesktopSnapshot>) -> (r: Vec<
        (u64, Response),
    >)
        requires
            old(self)@.answerable(),
            old(self)@.needs_snapshot() ==> snapshot is Some,
        ensures
            (final(self)@, sent(r@)) == old(self)@.finished(sequence, snapshot_view(snapshot)),
    {
        let ghost start = self@;
        let ghost view = snapshot_view(snapshot);
        let mut list: Vec<(u64, Response)> = Vec::new();
        let mut pending: Vec<PendingCommand> = Vec::new();
        std::mem::swap(&mut pending, &mut self.commands);
        let mut requests: Vec<u64> = Vec::new();
        std::mem::swap(&mut requests, &mut self.stream_requests);
        self.published_sequence = sequence;
        let ghost all = pending@;
        proof {
            assert(pending_views(all) == start.commands);
            assert(pending_views(Seq::<PendingCommand>::empty()) =~= Seq::empty());
            assert(sent(list@) =~= answers(start.commands, sequence, view).take(0));
        }
        let ghost goal = answers(start.commands, sequence, view);
        while pending.len() > 0
            invariant
                pending@.len() <= all.len(),
                pending@ == all.skip(all.len() - pending@.len()),
                pending_views(all) == start.commands,
                start.answerable(),
                start.needs_snapshot() ==> snapshot is Some,
                view == snapshot_view(snapshot),
                goal == answers(start.commands, sequence, view),
                sent(list@) == goal.take(all.len() - pending@.len()),
            decreases pending@.len(),
        {
            let ghost i = all.len() - pending@.len();
            let next: PendingCommand = pending.remove(0);
            proof {
                assert(next == all[i]);
                assert(start.commands[i] == (next.connection, next.response@));
                assert(!is_stream(start.commands[i].1));
                if is_state(start.commands[i].1) {
                    assert(start.needs_snapshot());
                }
                assert(pending@ =~= all.skip(i + 1));
            }
            let PendingCommand { connection, response } = next;
            let ghost earlier = list@;
            list.push((connection, finalize_response(response, sequence, snapshot)));
            proof {
                assert(sent(list@) =~= sent(earlier).push(goal[i]));
                assert(goal.take(i + 1) =~= goal.take(i).push(goal[i]));
            }
        }
        assert(goal.take(all.len() as int) =~= goal);
        let ghost first = sent(list@);
        let ghost state = view->0;
        let mut n: usize = 0;
        assert(first + Seq::empty() =~= first);
        while n < requests.len()
            invariant
                n <= requests@.len(),
                requests@ == start.stream_requests,
                start.needs_snapshot() ==> snapshot is Some,
                view == snapshot_view(snapshot),
                state == view->0,
                self@ == (ServerView {
                    commands: Seq::empty(),
                    stream_requests: Seq::empty(),
                    subscribers: self@.subscribers,
                    published_sequence: sequence,
                    ..start
                }),
                welcomed(start.subscribers, requests@, n as int, sequence, state).0
                    == self@.subscribers,
                sent(list@) == first + welcomed(
                    start.subscribers,
                    requests@,
                    n as int,
                    sequence,
                    state,
                ).1,
            decreases requests@.len() - n,
        {
            let ghost earlier = list@;
            if self.subscribers.len() >= MAX_SUBSCRIBERS {
                list.push(
                    (
                        requests[n],
                        Response::Error(
                            Error {
                                code: ErrorCode::Conflict,
                                message: "event stream subscriber limit reached".to_owned(),
                                sequence,
                            },
                        ),
                    ),
                );
            } else {
                self.subscribers.insert(requests[n]);
                assert(start.needs_snapshot());
                let copy: DesktopSnapshot = match snapshot {
                    Some(snapshot) => snapshot.clone(),
                    None => {
                        assert(false);
                        DesktopSnapshot::default()
                    },
                };
                list.push(
                    (
                        requests[n],
                        Response::Success(Success::EventStream { sequence, snapshot: copy }),
                    ),
                );
            }
            n = n + 1;
            proof {
                let added = sent(list@).last();
                assert(sent(list@) =~= sent(earlier).push(added));
                assert(sent(list@) =~= first + welcomed(
                    start.subscribers,
                    requests@,
                    n as int,
                    sequence,
                    state,
                ).1);
            }
        }
        list
    }

    /// Adds an answer for a client, if it is still connected. Says whether requests of the client
    /// that were read already are next.
    pub fn answer(&mut self, id: u64, frame: &str, is_stream: bool, now: u64) -> (r: bool)
        ensures
            if old(self)@.connections.contains_key(id) {
                let (after, more) = old(self)@.connections[id].answered(frame@, is_stream, now);
                r == more && final(self)@ == (ServerView {
                    connections: old(self)@.connections.insert(id, after),
                    ..old(self)@
                })
            } else {
                !r && final(self)@ == old(self)@
            },
    {
        match self.connections.get_mut(id) {
            Some(connection) => connection.answer(frame, is_stream, now),
            None => false,
        }
    }
}

proof fn ids_are_distinct(set: IdSet, ids: Seq<u64>)
    requires
        ids == ranking::ascending(set@),
        set@.finite(),
    ensures
        ids.no_duplicates(),
{
    ranking::ranking_ranks(set@, |id: u64| 0);
}

} // verus!
