use astera::connection::{
    Connection, ConnectionMode, Decision, Interest, Reply, Step, IO_TIMEOUT, MAX_REQUEST_BYTES,
    SUBSCRIBER_QUEUE,
};
use astera::server::{finalize_response, IpcServer, MAX_COMMAND_CONNECTIONS, MAX_SUBSCRIBERS};
use astera::wire::v0;
use astera::wire::v1::{DesktopSnapshot, Error, ErrorCode, Response, Success};

fn invalid_request(reply: Reply) -> Error {
    match reply {
        Reply::Current { version: 1, response: Response::Error(error) } => error,
        other => panic!("expected an error of the current version, got {other:?}"),
    }
}

#[test]
fn version_lock_and_malformed_bootstrap_remain_structured() {
    let mut connection = Connection::new(0);
    connection.version = Some(1);
    let Decision::Reject { reply } = connection.decode_request_frame("0 Versions\n", 7) else {
        panic!("version must lock")
    };
    let error = invalid_request(reply);
    assert_eq!(error.sequence, 7);
    assert!(error.message.contains("locked version"));

    let mut connection = Connection::new(0);
    let malformed = "0 DefinitelyNotVersions\n";
    assert_eq!(
        connection.decode_request_frame(malformed, 0),
        Decision::Bootstrap { payload: "DefinitelyNotVersions".to_string() }
    );
    let reply = connection.answer_bootstrap(Some("expected Versions".to_string()));
    assert!(matches!(
        reply,
        Reply::Bootstrap(v0::Response::InvalidRequest { .. })
    ));
    assert!(connection.close_after_write);
}

#[test]
fn bootstrap_reports_the_version_bounds() {
    let mut connection = Connection::new(0);
    assert_eq!(
        connection.answer_bootstrap(None),
        Reply::Bootstrap(v0::Response::Versions { minimum: 1, current: 1 })
    );
    assert_eq!(
        connection.decode_request_frame("9 x\n", 0),
        Decision::Reject {
            reply: Reply::Bootstrap(v0::Response::UnsupportedVersion {
                requested: 9,
                minimum: 1,
                current: 1,
            }),
        }
    );
    assert_eq!(
        connection.decode_request_frame("nonsense", 0),
        Decision::Reject {
            reply: Reply::Bootstrap(v0::Response::InvalidFrame {
                message: "IPC frame must be `<version> <RON>\\n`".to_string(),
            }),
        }
    );
}

#[test]
fn handshake_does_not_consume_event_queue_capacity() {
    let mut connection = Connection::new(0);
    connection.mode = ConnectionMode::Subscriber;
    connection.queue("handshake\n", false, 0);
    connection.queue("event\n", true, 0);
    connection.queued_events = 1;

    assert!(connection.wrote("handshake\n".len(), 1));
    assert_eq!(connection.queued_events, 1);
    assert!(connection.wrote(2, 2));
    assert!(connection.wrote(4, 3));
    assert_eq!(connection.queued_events, 0);
    assert!(!connection.wants_write());
}

#[test]
fn subscriber_queue_overflow_disconnects_only_that_connection() {
    let mut server = IpcServer::new();
    let lagging = server.connect(0).unwrap();
    let other = server.connect(0).unwrap();
    let bystander = server.connect(0).unwrap();
    for id in [lagging, other] {
        server.connections.get_mut(id).unwrap().mode = ConnectionMode::Subscriber;
        server.subscribers.insert(id);
    }
    let event = Some("1 (sequence:1,event:Unsupported(name:\"load\"))\n".to_string());
    for _ in 0..SUBSCRIBER_QUEUE {
        server.tell(&event, 0);
        let connection = server.connections.get_mut(other).unwrap();
        let length = connection.output[0].bytes.len();
        assert!(connection.wrote(length, 0));
    }
    assert!(server.connections.contains_key(lagging));
    server.tell(&event, 0);
    assert!(!server.connections.contains_key(lagging));
    assert!(!server.subscribers.contains(lagging));
    assert!(server.subscribers.contains(other));
    assert!(server.connections.contains_key(bystander));
    server.remove_connection(other);
    server.retain_live_subscribers();
    assert_eq!(server.subscribers.len(), 0);
}

#[test]
fn future_write_timeout_has_a_real_deadline() {
    assert_eq!(IpcServer::new().next_timeout(), None);
}

#[test]
fn blocked_writer_has_a_bounded_timeout() {
    let mut server = IpcServer::new();
    let start = 5_000_000_000;
    let id = server.connect(start).unwrap();
    let connection = server.connections.get_mut(id).unwrap();
    connection.queue(&"x".repeat(8 * 1024), false, start);
    assert_eq!(server.next_timeout(), Some(start + IO_TIMEOUT));
    assert!(server.has_pending_output());
    server.expire(start + IO_TIMEOUT - 1);
    assert!(server.connections.contains_key(id));
    server.expire(start + IO_TIMEOUT);
    assert!(!server.connections.contains_key(id));
}

#[test]
fn half_closed_slow_reader_does_not_leave_rdhup_armed() {
    let mut connection = Connection::new(0);
    connection.queue("x", false, 0);
    assert_eq!(
        connection.interest(),
        Interest { read: true, write: true, hang_up: true }
    );
    assert!(connection.finish_service(true, true, false));
    assert!(connection.input_closed);
    assert!(connection.wants_write());
    assert_eq!(
        connection.interest(),
        Interest { read: false, write: true, hang_up: false }
    );
    assert!(connection.wrote(1, 0));
    assert!(!connection.finish_service(true, true, false));
}

#[test]
fn requests_are_taken_one_at_a_time() {
    let mut connection = Connection::new(0);
    connection.receive(b"1 first\n1 sec", 1);
    connection.receive(b"ond\n", 2);
    assert_eq!(
        connection.next_request(0, 3),
        Step::Decide { decision: Decision::Decode { payload: "first".to_string() } }
    );
    connection.accept_request();
    assert_eq!(connection.next_request(1, 3), Step::Idle);
    assert!(connection.answer("1 reply\n", false, 4));
    assert_eq!(
        connection.next_request(0, 3),
        Step::Decide { decision: Decision::Decode { payload: "second".to_string() } }
    );
    let error = invalid_request(connection.refuse_request("expected a command".to_string(), 9));
    assert_eq!(error.code, ErrorCode::InvalidRequest);
    assert_eq!(error.message, "invalid RON payload: expected a command");
    assert_eq!(error.sequence, 9);
    assert_eq!(connection.next_request(16, 3), Step::Idle);
}

#[test]
fn oversized_and_garbled_requests_are_refused() {
    let mut connection = Connection::new(0);
    connection.receive(&vec![b'x'; MAX_REQUEST_BYTES + 1], 0);
    assert!(connection.discard_oversized);
    assert!(connection.input.is_empty());
    connection.receive(b"rest\n", 0);
    assert_eq!(
        connection.next_request(0, 0),
        Step::Stop {
            reply: Reply::Bootstrap(v0::Response::InvalidFrame {
                message: "IPC request exceeds 65536 bytes".to_string(),
            }),
        }
    );
    assert!(connection.close_after_write);

    let mut connection = Connection::new(0);
    connection.receive(b"1 \xff\n", 0);
    assert_eq!(
        connection.next_request(0, 0),
        Step::Stop {
            reply: Reply::Bootstrap(v0::Response::InvalidFrame {
                message: "IPC request is not UTF-8: invalid utf-8 sequence of 1 bytes from index 2"
                    .to_string(),
            }),
        }
    );
}

#[test]
fn a_closed_input_ends_an_idle_connection() {
    assert!(!Connection::new(0).end_of_input());
    let mut connection = Connection::new(0);
    connection.accept_request();
    assert!(connection.end_of_input());
    assert!(connection.close_after_write);
}

#[test]
fn command_and_stream_share_an_atomic_sequence() {
    let mut server = IpcServer::new();
    let (first, second) = (server.connect(0).unwrap(), server.connect(0).unwrap());
    server.add_command(
        first,
        Response::Success(Success::State { sequence: 0, snapshot: DesktopSnapshot::default() }),
    );
    server.add_command(first, Response::Success(Success::Handled { sequence: 0 }));
    server.add_stream_request(second);
    assert!(server.needs_snapshot());
    let mut snapshot = DesktopSnapshot::default();
    snapshot.config.generation = 3;
    let answers = server.finish_tick(&Vec::new(), false, 17, Some(&snapshot), 0);
    assert_eq!(
        answers,
        vec![
            (
                first,
                Response::Success(Success::State { sequence: 17, snapshot: snapshot.clone() })
            ),
            (first, Response::Success(Success::Handled { sequence: 17 })),
            (
                second,
                Response::Success(Success::EventStream { sequence: 17, snapshot: snapshot.clone() })
            ),
        ]
    );
    assert!(server.subscribers.contains(second));
    assert_eq!(server.published_sequence, 17);
    assert!(!server.needs_snapshot());
}

#[test]
fn there_are_limits_to_clients_and_subscribers() {
    let mut server = IpcServer::new();
    for _ in 0..MAX_COMMAND_CONNECTIONS {
        assert!(server.connect(0).is_some());
    }
    assert_eq!(server.connect(0), None);

    let mut server = IpcServer::new();
    for _ in 0..=MAX_SUBSCRIBERS {
        let id = server.connect(0).unwrap();
        server.add_stream_request(id);
    }
    let answers =
        server.finish_tick(&Vec::new(), false, 1, Some(&DesktopSnapshot::default()), 0);
    assert_eq!(server.subscribers.len(), MAX_SUBSCRIBERS);
    assert_eq!(
        answers.last().unwrap().1,
        Response::Error(Error {
            code: ErrorCode::Conflict,
            message: "event stream subscriber limit reached".to_string(),
            sequence: 1,
        })
    );
}

#[test]
fn exhausted_sequences_hang_up_on_all_subscribers() {
    let mut server = IpcServer::new();
    let (first, second) = (server.connect(0).unwrap(), server.connect(0).unwrap());
    server.subscribers.insert(second);
    server.hang_up();
    assert!(server.connections.contains_key(first));
    assert!(!server.connections.contains_key(second));
    assert_eq!(server.subscribers.len(), 0);
}

#[test]
fn errors_get_the_sequence_of_the_tick() {
    let error = Error {
        code: ErrorCode::NotFound,
        message: "missing".to_string(),
        sequence: 0,
    };
    assert_eq!(
        finalize_response(Response::Error(error), 42, None),
        Response::Error(Error {
            code: ErrorCode::NotFound,
            message: "missing".to_string(),
            sequence: 42,
        })
    );
}

#[test]
fn pipelined_requests_survive_the_end_of_input() {
    let mut connection = Connection::new(0);
    connection.receive(b"1 a\n1 b\n", 0);
    for (payload, more) in [("a", true), ("b", false)] {
        assert_eq!(
            connection.next_request(0, 0),
            Step::Decide { decision: Decision::Decode { payload: payload.to_string() } }
        );
        connection.accept_request();
        assert_eq!(connection.next_request(1, 0), Step::Idle);
        assert!(connection.finish_service(true, true, false));
        assert_eq!(connection.answer("1 (reply)\n", false, 1), more);
    }
    for _ in 0..2 {
        assert!(connection.finish_service(true, false, false));
        assert!(connection.wrote(10, 2));
    }
    assert!(!connection.finish_service(true, false, false));
}

#[test]
fn a_tick_parts_the_events_before_it_from_those_after_it() {
    let mut server = IpcServer::new();
    let (old, lagging, new) =
        (server.connect(0).unwrap(), server.connect(0).unwrap(), server.connect(0).unwrap());
    server.subscribers.insert(old);
    server.subscribers.insert(lagging);
    for _ in 0..SUBSCRIBER_QUEUE {
        assert!(server.connections.get_mut(lagging).unwrap().queue_event("1 x\n", 0));
    }
    server.add_stream_request(new);
    let frames = vec![Some("1 first\n".to_string()), Some("1 second\n".to_string())];
    let answers =
        server.finish_tick(&frames, false, 9, Some(&DesktopSnapshot::default()), 3);
    assert_eq!(answers.len(), 1);
    assert!(matches!(
        &answers[0],
        (id, Response::Success(Success::EventStream { sequence: 9, .. })) if *id == new
    ));
    let written: Vec<&[u8]> = server
        .connections
        .get(old)
        .unwrap()
        .output
        .iter()
        .map(|frame| frame.bytes.as_slice())
        .collect();
    assert_eq!(written, vec![b"1 first\n".as_slice(), b"1 second\n".as_slice()]);
    assert!(!server.connections.contains_key(lagging));
    assert!(!server.connections.get(new).unwrap().wants_write());
    assert!(server.subscribers.contains(new) && !server.subscribers.contains(lagging));

    assert!(server.finish_tick(&frames, true, 9, None, 4).is_empty());
    assert!(!server.connections.contains_key(old) && !server.connections.contains_key(new));
}

#[test]
fn a_stream_takes_no_more_requests() {
    let mut connection = Connection::new(0);
    connection.receive(b"1 a\n1 b\n", 0);
    assert!(matches!(connection.next_request(0, 0), Step::Decide { .. }));
    connection.accept_request();
    assert!(!connection.answer("1 stream\n", true, 0));
    assert_eq!(connection.next_request(0, 0), Step::Idle);
}
