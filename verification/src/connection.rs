//! One client of the protocol: what it has sent and what it is still to be told.
//!
//! Sockets, and the encoding of messages, are outside. A caller feeds in the bytes that were
//! read, asks what to do next, decodes or encodes as told, and reports what came of it. Times are
//! counted in nanoseconds.

use crate::ipc;
use crate::ipc::{parse_frame, FramingError};
use crate::listing;
use crate::listing::group_each;
use crate::text;
use crate::text::push_decimal;
use crate::wire::v0;
use crate::wire::v1;
use vstd::prelude::*;
use vstd::utf8;

verus! {

broadcast use group_each;

/// How many events may wait for one subscriber.
pub const SUBSCRIBER_QUEUE: usize = 256;

/// How long a request may be, in bytes.
pub const MAX_REQUEST_BYTES: usize = 65536;

/// How many requests of one connection are looked at in one go.
pub const MAX_FRAMES_PER_CONNECTION: usize = 16;

/// How long a client may take to read on, in nanoseconds.
pub const IO_TIMEOUT: u64 = 2_000_000_000;

#[derive(Clone, Copy, Debug, Eq, PartialEq, Structural)]
pub enum ConnectionMode {
    Commands,
    Subscriber,
}

/// Something that is to be written to a client.
#[derive(Debug, Eq, PartialEq)]
pub struct OutputFrame {
    pub bytes: Vec<u8>,
    pub is_event: bool,
}

#[verifier::ext_equal]
pub struct FrameView {
    pub bytes: Seq<u8>,
    pub is_event: bool,
}

impl View for OutputFrame {
    type V = FrameView;

    open spec fn view(&self) -> FrameView {
        FrameView { bytes: self.bytes@, is_event: self.is_event }
    }
}

#[derive(Debug, Eq, PartialEq)]
pub struct Connection {
    /// The version that the client speaks, once it has said so.
    pub version: Option<u16>,
    /// What was read and has not been looked at yet.
    pub input: Vec<u8>,
    /// Whether the beginning of the present request was thrown away because it is too long.
    pub discard_oversized: bool,
    pub output: Vec<OutputFrame>,
    /// How much of the first frame has been written.
    pub output_offset: usize,
    pub queued_events: usize,
    pub awaiting_response: bool,
    pub close_after_write: bool,
    pub input_closed: bool,
    pub mode: ConnectionMode,
    pub last_progress: u64,
}

#[verifier::ext_equal]
pub struct ConnectionView {
    pub version: Option<u16>,
    pub input: Seq<u8>,
    pub discard_oversized: bool,
    pub output: Seq<FrameView>,
    pub output_offset: usize,
    pub queued_events: usize,
    pub awaiting_response: bool,
    pub close_after_write: bool,
    pub input_closed: bool,
    pub mode: ConnectionMode,
    pub last_progress: u64,
}

impl View for Connection {
    type V = ConnectionView;

    open spec fn view(&self) -> ConnectionView {
        ConnectionView {
            version: self.version,
            input: self.input@,
            discard_oversized: self.discard_oversized,
            output: listing::each(self.output@),
            output_offset: self.output_offset,
            queued_events: self.queued_events,
            awaiting_response: self.awaiting_response,
            close_after_write: self.close_after_write,
            input_closed: self.input_closed,
            mode: self.mode,
            last_progress: self.last_progress,
        }
    }
}

/// How many frames of a queue are events.
pub open spec fn events_in(output: Seq<FrameView>) -> nat
    decreases output.len(),
{
    if output.len() == 0 {
        0
    } else {
        events_in(output.drop_last()) + if output.last().is_event {
            1nat
        } else {
            0
        }
    }
}

/// A message of one of the two schemas, to be encoded.
#[derive(Debug, Eq, PartialEq)]
pub enum Reply {
    Bootstrap(v0::Response),
    Current { version: u16, response: v1::Response },
}

#[verifier::ext_equal]
pub enum BootstrapView {
    Versions { minimum: u16, current: u16 },
    UnsupportedVersion { requested: u16, minimum: u16, current: u16 },
    InvalidFrame { message: Seq<char> },
    InvalidRequest { message: Seq<char> },
}

impl View for v0::Response {
    type V = BootstrapView;

    open spec fn view(&self) -> BootstrapView {
        match self {
            v0::Response::Versions { minimum, current } => BootstrapView::Versions {
                minimum: *minimum,
                current: *current,
            },
            v0::Response::UnsupportedVersion { requested, minimum, current } =>
                BootstrapView::UnsupportedVersion {
                requested: *requested,
                minimum: *minimum,
                current: *current,
            },
            v0::Response::InvalidFrame { message } => BootstrapView::InvalidFrame {
                message: message@,
            },
            v0::Response::InvalidRequest { message } => BootstrapView::InvalidRequest {
                message: message@,
            },
        }
    }
}

#[verifier::ext_equal]
pub enum ReplyView {
    Bootstrap(BootstrapView),
    Current { version: u16, response: v1::ResponseView },
}

impl View for Reply {
    type V = ReplyView;

    open spec fn view(&self) -> ReplyView {
        match self {
            Reply::Bootstrap(response) => ReplyView::Bootstrap(response@),
            Reply::Current { version, response } => ReplyView::Current {
                version: *version,
                response: response@,
            },
        }
    }
}

pub open spec fn invalid_request(message: Seq<char>, sequence: u64) -> v1::ResponseView {
    v1::ResponseView::Error(
        v1::ErrorView { code: v1::ErrorCode::InvalidRequest, message, sequence },
    )
}

pub open spec fn protocol_error(version: Option<u16>, message: Seq<char>, sequence: u64) -> ReplyView {
    match version {
        Some(version) => ReplyView::Current {
            version,
            response: invalid_request(message, sequence),
        },
        None => ReplyView::Bootstrap(BootstrapView::InvalidFrame { message }),
    }
}

/// What is to be done with a request.
#[derive(Debug, Eq, PartialEq)]
pub enum Decision {
    /// Decode the payload as a request of the bootstrap schema, and report the outcome.
    Bootstrap { payload: String },
    /// Decode the payload as a request of the current schema, and report the outcome.
    Decode { payload: String },
    /// Tell the client that it cannot be served.
    Reject { reply: Reply },
}

#[verifier::ext_equal]
pub enum DecisionView {
    Bootstrap { payload: Seq<char> },
    Decode { payload: Seq<char> },
    Reject { reply: ReplyView },
}

impl View for Decision {
    type V = DecisionView;

    open spec fn view(&self) -> DecisionView {
        match self {
            Decision::Bootstrap { payload } => DecisionView::Bootstrap { payload: payload@ },
            Decision::Decode { payload } => DecisionView::Decode { payload: payload@ },
            Decision::Reject { reply } => DecisionView::Reject { reply: reply@ },
        }
    }
}

/// What a frame of a version is to a connection that speaks a version.
pub open spec fn routed(
    version: Option<u16>,
    frame: u16,
    payload: Seq<char>,
    sequence: u64,
) -> (Option<u16>, DecisionView) {
    if version is None && frame == ipc::BOOTSTRAP_VERSION {
        (version, DecisionView::Bootstrap { payload })
    } else if frame != ipc::CURRENT_VERSION {
        (
            version,
            DecisionView::Reject {
                reply: match version {
                    Some(expected) => ReplyView::Current {
                        version: expected,
                        response: invalid_request(
                            "IPC frame version "@ + text::decimal(frame as int)
                                + " does not match locked version "@ + text::decimal(
                                expected as int,
                            ),
                            sequence,
                        ),
                    },
                    None => ReplyView::Bootstrap(
                        BootstrapView::UnsupportedVersion {
                            requested: frame,
                            minimum: ipc::MIN_VERSION,
                            current: ipc::CURRENT_VERSION,
                        },
                    ),
                },
            },
        )
    } else {
        (Some(frame), DecisionView::Decode { payload })
    }
}

/// The version and the payload of a frame, if a text is one.
pub open spec fn framed(line: Seq<char>) -> Option<(u16, Seq<char>)> {
    if exists|frame: (u16, Seq<char>)| #[trigger] is_framed(line, frame) {
        Some(choose|frame: (u16, Seq<char>)| #[trigger] is_framed(line, frame))
    } else {
        None
    }
}

pub open spec fn is_framed(line: Seq<char>, frame: (u16, Seq<char>)) -> bool {
    ipc::is_frame(line, frame.0, frame.1)
}

proof fn frames_are_framed(line: Seq<char>, version: u16, payload: Seq<char>)
    requires
        ipc::is_frame(line, version, payload),
    ensures
        framed(line) == Some((version, payload)),
{
    assert(is_framed(line, (version, payload)));
    let frame = framed(line)->0;
    ipc::frames_are_unambiguous(line, frame.0, frame.1, version, payload);
}

impl ConnectionView {
    /// What is to be done with a line, and the connection then: a client that has not said its
    /// version may ask which there are; the first request of the current version settles it.
    pub open spec fn decided(self, line: Seq<char>, sequence: u64) -> (Self, DecisionView) {
        match framed(line) {
            Some((frame, payload)) => {
                let (version, decision) = routed(self.version, frame, payload, sequence);
                (ConnectionView { version, ..self }, decision)
            },
            None => (
                self,
                DecisionView::Reject {
                    reply: protocol_error(
                        self.version,
                        ipc::FramingFault::InvalidFrame.message(),
                        sequence,
                    ),
                },
            ),
        }
    }
}

fn invalid_response(message: String, sequence: u64) -> (r: v1::Response)
    ensures
        r@ == invalid_request(message@, sequence),
{
    v1::Response::Error(v1::Error { code: v1::ErrorCode::InvalidRequest, message, sequence })
}

fn error_reply(version: Option<u16>, message: String, sequence: u64) -> (r: Reply)
    ensures
        r@ == protocol_error(version, message@, sequence),
{
    match version {
        Some(version) => Reply::Current { version, response: invalid_response(message, sequence) },
        None => Reply::Bootstrap(v0::Response::InvalidFrame { message }),
    }
}

impl Connection {
    /// Decides what to do with one line.
    pub fn decode_request_frame(&mut self, line: &str, sequence: u64) -> (r: Decision)
        ensures
            (final(self)@, r@) == old(self)@.decided(line@, sequence),
    {
        let (version, payload): (u16, String) = match parse_frame(line) {
            Ok(frame) => (frame.version, frame.payload.to_owned()),
            Err(error) => {
                assert forall|frame: (u16, Seq<char>)| !#[trigger] is_framed(line@, frame) by {
                    assert(!ipc::is_frame(line@, frame.0, frame.1));
                }
                return Decision::Reject {
                    reply: error_reply(self.version, error.message(), sequence),
                };
            },
        };
        proof {
            frames_are_framed(line@, version, payload@);
        }
        if self.version.is_none() && version == ipc::BOOTSTRAP_VERSION {
            return Decision::Bootstrap { payload };
        }
        if version != ipc::CURRENT_VERSION {
            let reply: Reply = match self.version {
                Some(expected) => {
                    let mut message: String = "IPC frame version ".to_owned();
                    push_decimal(&mut message, version as u64);
                    message.append(" does not match locked version ");
                    push_decimal(&mut message, expected as u64);
                    Reply::Current {
                        version: expected,
                        response: invalid_response(message, sequence),
                    }
                },
                None => Reply::Bootstrap(
                    v0::Response::UnsupportedVersion {
                        requested: version,
                        minimum: ipc::MIN_VERSION,
                        current: ipc::CURRENT_VERSION,
                    },
                ),
            };
            return Decision::Reject { reply };
        }
        self.version = Some(version);
        Decision::Decode { payload }
    }
}

/// What `std` says of bytes that are no text.
pub uninterp spec fn utf8_fault(bytes: Seq<u8>) -> Seq<char>;

/// Decodes bytes by `String::from_utf8` of `std`, which succeeds on valid UTF-8 and nothing else.
/// The message of the error depends on the bytes alone; its wording is left to `std`.
#[verifier::external_body]
fn decode_text(bytes: Vec<u8>) -> (r: Result<String, String>)
    ensures
        match r {
            Ok(text) => utf8::valid_utf8(bytes@) && text@ == utf8::decode_utf8(bytes@),
            Err(message) => !utf8::valid_utf8(bytes@) && message@ == utf8_fault(bytes@),
        },
{
    String::from_utf8(bytes).map_err(|error| error.to_string())
}

/// What a connection wants done next.
#[derive(Debug, Eq, PartialEq)]
pub enum Step {
    /// Nothing, until more is read or an answer is given.
    Idle,
    /// Send a reply, and look at no further request now.
    Stop { reply: Reply },
    /// Deal with one request, and ask again.
    Decide { decision: Decision },
}

#[verifier::ext_equal]
pub enum StepView {
    Idle,
    Stop { reply: ReplyView },
    Decide { decision: DecisionView },
}

impl View for Step {
    type V = StepView;

    open spec fn view(&self) -> StepView {
        match self {
            Step::Idle => StepView::Idle,
            Step::Stop { reply } => StepView::Stop { reply: reply@ },
            Step::Decide { decision } => StepView::Decide { decision: decision@ },
        }
    }
}

/// The place of the first line end from a place on.
pub open spec fn line_end(input: Seq<u8>, from: int) -> Option<int>
    decreases input.len() - from,
{
    if from < 0 || from >= input.len() {
        None
    } else if input[from] == 10 {
        Some(from)
    } else {
        line_end(input, from + 1)
    }
}

/// What events a connection waits for.
#[derive(Clone, Copy, Debug, Eq, PartialEq, Structural)]
pub struct Interest {
    pub read: bool,
    pub write: bool,
    pub hang_up: bool,
}

impl ConnectionView {
    pub open spec fn opened(now: u64) -> Self {
        ConnectionView {
            version: None,
            input: Seq::empty(),
            discard_oversized: false,
            output: Seq::empty(),
            output_offset: 0,
            queued_events: 0,
            awaiting_response: false,
            close_after_write: false,
            input_closed: false,
            mode: ConnectionMode::Commands,
            last_progress: now,
        }
    }

    /// Whether the events that are counted are those in the queue, no more than may be, no more
    /// of the first frame is written than it has, and the version is one that is spoken.
    pub open spec fn sound(self) -> bool {
        &&& self.version matches Some(version) ==> version == ipc::CURRENT_VERSION
        &&& self.queued_events == events_in(self.output)
        &&& self.queued_events <= SUBSCRIBER_QUEUE
        &&& self.output.len() == 0 ==> self.output_offset == 0
        &&& self.output.len() > 0 ==> self.output_offset <= self.output[0].bytes.len()
    }

    pub open spec fn wants_write(self) -> bool {
        self.output.len() > 0
    }

    pub open spec fn has_line(self) -> bool {
        line_end(self.input, 0) is Some
    }

    /// The connection with something more to write.
    pub open spec fn queued(self, frame: Seq<char>, is_event: bool, now: u64) -> Self {
        ConnectionView {
            output: self.output.push(FrameView { bytes: utf8::encode_utf8(frame), is_event }),
            last_progress: if self.output.len() == 0 {
                now
            } else {
                self.last_progress
            },
            ..self
        }
    }

    /// The connection with an event more to write.
    pub open spec fn event_queued(self, frame: Seq<char>, now: u64) -> Self {
        ConnectionView {
            queued_events: (self.queued_events + 1) as usize,
            ..self.queued(frame, true, now)
        }
    }

    /// The connection when bytes have been read. The beginning of a request that is too long is
    /// thrown away.
    pub open spec fn received(self, bytes: Seq<u8>, now: u64) -> Self {
        let read = ConnectionView {
            input: self.input + bytes,
            last_progress: now,
            ..self
        };
        if read.input.len() > MAX_REQUEST_BYTES && !read.has_line() {
            ConnectionView { input: Seq::empty(), discard_oversized: true, ..read }
        } else {
            read
        }
    }

    /// The connection when nothing more will be read, and whether it is still needed.
    pub open spec fn ended(self) -> (Self, bool) {
        let needed = self.awaiting_response || self.wants_write();
        (
            ConnectionView {
                input_closed: true,
                close_after_write: self.close_after_write || needed,
                ..self
            },
            needed,
        )
    }

    /// The connection when some bytes of the first frame have been written, and whether it is
    /// still good: a write of nothing ends it.
    pub open spec fn wrote(self, written: int, now: u64) -> (Self, bool) {
        if written == 0 {
            (self, false)
        } else {
            let frame = self.output[0];
            let offset = self.output_offset + written;
            if offset == frame.bytes.len() {
                (
                    ConnectionView {
                        output: self.output.skip(1),
                        output_offset: 0,
                        queued_events: (self.queued_events - if frame.is_event {
                            1int
                        } else {
                            0
                        }) as usize,
                        last_progress: now,
                        ..self
                    },
                    true,
                )
            } else {
                (
                    ConnectionView { output_offset: offset as usize, last_progress: now, ..self },
                    true,
                )
            }
        }
    }

    /// The connection after a round of reading and writing, and whether to keep it: not when it
    /// failed, and not when nothing is left to answer or to write.
    pub open spec fn serviced(self, keep: bool, input_closed: bool, fatal: bool) -> (Self, bool) {
        let after = ConnectionView {
            input_closed: self.input_closed || input_closed,
            close_after_write: self.close_after_write || input_closed,
            ..self
        };
        (
            after,
            keep && !fatal && !(after.close_after_write && !after.wants_write()
                && !after.awaiting_response && !after.has_line()),
        )
    }

    pub open spec fn interest(self) -> Interest {
        Interest {
            read: !self.input_closed,
            write: self.wants_write(),
            hang_up: !self.input_closed,
        }
    }

    /// What to do next, and the connection then. A connection that follows the events takes no
    /// requests any more.
    pub open spec fn stepped(self, handled: usize, sequence: u64) -> (Self, StepView) {
        if handled >= MAX_FRAMES_PER_CONNECTION || self.awaiting_response || self.mode
            == ConnectionMode::Subscriber {
            (self, StepView::Idle)
        } else {
            match line_end(self.input, 0) {
                None => (self, StepView::Idle),
                Some(i) => {
                    let line = self.input.take(i + 1);
                    let rest = ConnectionView { input: self.input.skip(i + 1), ..self };
                    if self.discard_oversized || line.len() > MAX_REQUEST_BYTES {
                        (
                            ConnectionView {
                                discard_oversized: false,
                                close_after_write: true,
                                ..rest
                            },
                            StepView::Stop {
                                reply: protocol_error(
                                    self.version,
                                    "IPC request exceeds 65536 bytes"@,
                                    sequence,
                                ),
                            },
                        )
                    } else if !utf8::valid_utf8(line) {
                        (
                            ConnectionView { close_after_write: true, ..rest },
                            StepView::Stop {
                                reply: protocol_error(
                                    self.version,
                                    "IPC request is not UTF-8: "@ + utf8_fault(line),
                                    sequence,
                                ),
                            },
                        )
                    } else {
                        let (after, decision) = rest.decided(utf8::decode_utf8(line), sequence);
                        (
                            ConnectionView {
                                close_after_write: after.close_after_write || decision is Reject,
                                ..after
                            },
                            StepView::Decide { decision },
                        )
                    }
                },
            }
        }
    }

    /// The connection when an answer has been given, and whether requests that were read already
    /// are next.
    pub open spec fn answered(self, frame: Seq<char>, is_stream: bool, now: u64) -> (Self, bool) {
        let after = ConnectionView {
            awaiting_response: false,
            mode: if is_stream {
                ConnectionMode::Subscriber
            } else {
                self.mode
            },
            ..self.queued(frame, false, now)
        };
        (after, after.mode == ConnectionMode::Commands && after.has_line())
    }

    /// When the client has taken too long.
    pub open spec fn deadline(self) -> u64 {
        if self.last_progress + IO_TIMEOUT > u64::MAX {
            u64::MAX
        } else {
            (self.last_progress + IO_TIMEOUT) as u64
        }
    }

    /// Whether the client has taken too long.
    pub open spec fn expired(self, now: u64) -> bool {
        self.wants_write() && now - self.last_progress >= IO_TIMEOUT
    }
}

fn find_line_end(input: &Vec<u8>) -> (r: Option<usize>)
    ensures
        match line_end(input@, 0) {
            Some(i) => r == Some(i as usize) && 0 <= i < input@.len(),
            None => r is None,
        },
{
    let mut i: usize = 0;
    while i < input.len()
        invariant
            i <= input@.len(),
            line_end(input@, 0) == line_end(input@, i as int),
        decreases input@.len() - i,
    {
        if input[i] == 10 {
            return Some(i);
        }
        i = i + 1;
    }
    None
}

proof fn first_event_counts(output: Seq<FrameView>)
    requires
        output.len() > 0,
    ensures
        events_in(output) == events_in(output.skip(1)) + if output[0].is_event {
            1nat
        } else {
            0
        },
    decreases output.len(),
{
    if output.len() == 1 {
        assert(output.skip(1) =~= Seq::empty());
        assert(output.drop_last() =~= Seq::empty());
    } else {
        first_event_counts(output.drop_last());
        assert(output.drop_last().skip(1) =~= output.skip(1).drop_last());
    }
}

impl Connection {
    pub fn new(now: u64) -> (r: Self)
        ensures
            r@ == ConnectionView::opened(now),
            r@.sound(),
    {
        let r = Connection {
            version: None,
            input: Vec::new(),
            discard_oversized: false,
            output: Vec::new(),
            output_offset: 0,
            queued_events: 0,
            awaiting_response: false,
            close_after_write: false,
            input_closed: false,
            mode: ConnectionMode::Commands,
            last_progress: now,
        };
        assert(r@ =~= ConnectionView::opened(now));
        r
    }

    pub fn wants_write(&self) -> (r: bool)
        ensures
            r == self@.wants_write(),
    {
        self.output.len() > 0
    }

    /// Whether a whole request has been read.
    pub fn has_line(&self) -> (r: bool)
        ensures
            r == self@.has_line(),
    {
        find_line_end(&self.input).is_some()
    }

    /// Adds a frame to those that are to be written.
    pub fn queue(&mut self, frame: &str, is_event: bool, now: u64)
        ensures
            final(self)@ == old(self)@.queued(frame@, is_event, now),
            old(self)@.sound() && !is_event ==> final(self)@.sound(),
    {
        if self.output.len() == 0 {
            self.last_progress = now;
        }
        let bytes: Vec<u8> = frame.as_bytes_vec();
        self.output.push(OutputFrame { bytes, is_event });
        proof {
            let after = self@.output;
            assert(after.drop_last() =~= old(self)@.output);
        }
    }

    /// Adds an event, unless too many wait already: a subscriber that lags so far behind is to
    /// be disconnected.
    pub fn queue_event(&mut self, frame: &str, now: u64) -> (r: bool)
        ensures
            r == (old(self)@.queued_events < SUBSCRIBER_QUEUE),
            final(self)@ == if r {
                old(self)@.event_queued(frame@, now)
            } else {
                old(self)@
            },
            old(self)@.sound() ==> final(self)@.sound(),
    {
        if self.queued_events >= SUBSCRIBER_QUEUE {
            return false;
        }
        self.queue(frame, true, now);
        self.queued_events = self.queued_events + 1;
        proof {
            assert(self@.output.drop_last() =~= old(self)@.output);
        }
        true
    }

    /// Takes in bytes that were read.
    pub fn receive(&mut self, bytes: &[u8], now: u64)
        ensures
            final(self)@ == old(self)@.received(bytes@, now),
    {
        self.last_progress = now;
        self.input.extend_from_slice(bytes);
        assert(self.input@ =~= old(self).input@ + bytes@);
        if self.input.len() > MAX_REQUEST_BYTES && !self.has_line() {
            self.input.clear();
            self.discard_oversized = true;
        }
    }

    /// Takes note that nothing more will be read. Says whether the connection is still needed.
    pub fn end_of_input(&mut self) -> (r: bool)
        ensures
            (final(self)@, r) == old(self)@.ended(),
    {
        self.input_closed = true;
        if self.awaiting_response || self.wants_write() {
            self.close_after_write = true;
            true
        } else {
            false
        }
    }

    /// Takes note of how much of the first frame was written. Says whether the connection is
    /// still good.
    pub fn wrote(&mut self, written: usize, now: u64) -> (r: bool)
        requires
            old(self)@.sound(),
            old(self)@.wants_write(),
            written <= old(self)@.output[0].bytes.len() - old(self)@.output_offset,
        ensures
            (final(self)@, r) == old(self)@.wrote(written as int, now),
            final(self)@.sound(),
    {
        if written == 0 {
            return false;
        }
        proof {
            assert(self@.output[0] == self.output@[0]@);
            first_event_counts(self@.output);
        }
        let length: usize = self.output[0].bytes.len();
        self.last_progress = now;
        if written == length - self.output_offset {
            let frame: OutputFrame = self.output.remove(0);
            self.output_offset = 0;
            if frame.is_event {
                self.queued_events = self.queued_events - 1;
            }
            assert(self@.output =~= old(self)@.output.skip(1));
        } else {
            self.output_offset = self.output_offset + written;
        }
        true
    }

    /// Closes a round of reading and writing. Says whether to keep the connection.
    pub fn finish_service(&mut self, keep: bool, input_closed: bool, fatal: bool) -> (r: bool)
        ensures
            (final(self)@, r) == old(self)@.serviced(keep, input_closed, fatal),
    {
        if input_closed {
            self.input_closed = true;
            self.close_after_write = true;
        }
        keep && !fatal && !(self.close_after_write && !self.wants_write()
            && !self.awaiting_response && !self.has_line())
    }

    /// What events to wait for.
    pub fn interest(&self) -> (r: Interest)
        ensures
            r == self@.interest(),
    {
        Interest {
            read: !self.input_closed,
            write: self.wants_write(),
            hang_up: !self.input_closed,
        }
    }

    /// Takes the next request from what was read. `handled` counts those of this round.
    pub fn next_request(&mut self, handled: usize, sequence: u64) -> (r: Step)
        ensures
            (final(self)@, r@) == old(self)@.stepped(handled, sequence),
    {
        if handled >= MAX_FRAMES_PER_CONNECTION || self.awaiting_response {
            return Step::Idle;
        }
        if let ConnectionMode::Subscriber = self.mode {
            return Step::Idle;
        }
        let end: usize = match find_line_end(&self.input) {
            Some(end) => end,
            None => {
                return Step::Idle;
            },
        };
        let ghost input = self.input@;
        assert(self.input.len() == input.len());
        let mut line: Vec<u8> = self.input.split_off(end + 1);
        std::mem::swap(&mut line, &mut self.input);
        assert(line@ =~= input.take(end + 1));
        assert(self.input@ =~= input.skip(end + 1));
        if self.discard_oversized || line.len() > MAX_REQUEST_BYTES {
            self.discard_oversized = false;
            self.close_after_write = true;
            return Step::Stop {
                reply: error_reply(
                    self.version,
                    "IPC request exceeds 65536 bytes".to_owned(),
                    sequence,
                ),
            };
        }
        let text: String = match decode_text(line) {
            Ok(text) => text,
            Err(fault) => {
                self.close_after_write = true;
                let mut message: String = "IPC request is not UTF-8: ".to_owned();
                message.append(fault.as_str());
                return Step::Stop { reply: error_reply(self.version, message, sequence) };
            },
        };
        let decision: Decision = self.decode_request_frame(text.as_str(), sequence);
        assert(decision@ is Reject == (decision is Reject));
        if let Decision::Reject { .. } = &decision {
            self.close_after_write = true;
        }
        Step::Decide { decision }
    }

    /// Answers a request of the bootstrap schema, which the fault says is none, if there is one.
    /// Nothing more is served on the connection.
    pub fn answer_bootstrap(&mut self, fault: Option<String>) -> (r: Reply)
        ensures
            final(self)@ == (ConnectionView { close_after_write: true, ..old(self)@ }),
            r@ == ReplyView::Bootstrap(
                match fault {
                    None => BootstrapView::Versions {
                        minimum: ipc::MIN_VERSION,
                        current: ipc::CURRENT_VERSION,
                    },
                    Some(fault) => BootstrapView::InvalidRequest {
                        message: ipc::FramingFault::InvalidPayload(fault@).message(),
                    },
                },
            ),
    {
        self.close_after_write = true;
        match fault {
            None => Reply::Bootstrap(
                v0::Response::Versions {
                    minimum: ipc::MIN_VERSION,
                    current: ipc::CURRENT_VERSION,
                },
            ),
            Some(fault) => Reply::Bootstrap(
                v0::Response::InvalidRequest {
                    message: FramingError::InvalidPayload(fault).message(),
                },
            ),
        }
    }

    /// Takes note that a request was decoded and waits for its answer.
    pub fn accept_request(&mut self)
        ensures
            final(self)@ == (ConnectionView { awaiting_response: true, ..old(self)@ }),
    {
        self.awaiting_response = true;
    }

    /// Answers a payload that is no request.
    pub fn refuse_request(&mut self, fault: String, sequence: u64) -> (r: Reply)
        ensures
            final(self)@ == (ConnectionView { close_after_write: true, ..old(self)@ }),
            r@ == protocol_error(
                old(self)@.version,
                ipc::FramingFault::InvalidPayload(fault@).message(),
                sequence,
            ),
    {
        self.close_after_write = true;
        error_reply(self.version, FramingError::InvalidPayload(fault).message(), sequence)
    }

    /// Adds the answer to the request that was accepted. Says whether requests that were read
    /// already are next.
    pub fn answer(&mut self, frame: &str, is_stream: bool, now: u64) -> (r: bool)
        ensures
            (final(self)@, r) == old(self)@.answered(frame@, is_stream, now),
            old(self)@.sound() ==> final(self)@.sound(),
    {
        self.queue(frame, false, now);
        self.awaiting_response = false;
        if is_stream {
            self.mode = ConnectionMode::Subscriber;
        }
        let commands: bool = match self.mode {
            ConnectionMode::Commands => true,
            ConnectionMode::Subscriber => false,
        };
        commands && self.has_line()
    }

    /// When the client has taken too long.
    pub fn deadline(&self) -> (r: u64)
        ensures
            r == self@.deadline(),
    {
        self.last_progress.saturating_add(IO_TIMEOUT)
    }

    /// Whether the client has taken too long.
    pub fn is_expired(&self, now: u64) -> (r: bool)
        ensures
            r == self@.expired(now),
    {
        self.wants_write() && now.saturating_sub(self.last_progress) >= IO_TIMEOUT
    }
}

/// The version of a connection, once it is settled, does not change, and looking at requests
/// keeps a connection sound.
pub proof fn versions_are_settled_once(connection: ConnectionView, handled: usize, sequence: u64)
    requires
        connection.sound(),
    ensures
        connection.version is Some ==> connection.stepped(handled, sequence).0.version
            == connection.version,
        connection.stepped(handled, sequence).0.sound(),
{
}

/// A client that waits for an answer has no other request looked at.
pub proof fn requests_wait_for_answers(connection: ConnectionView, handled: usize, sequence: u64)
    requires
        connection.awaiting_response,
    ensures
        connection.stepped(handled, sequence) == (connection, StepView::Idle),
{
}

/// Every request that is refused closes the connection once the reply is written.
pub proof fn refusals_close(connection: ConnectionView, handled: usize, sequence: u64)
    ensures
        match connection.stepped(handled, sequence) {
            (after, StepView::Stop { .. }) => after.close_after_write,
            (after, StepView::Decide { decision }) => decision is Reject
                ==> after.close_after_write,
            (after, StepView::Idle) => after == connection,
        },
{
}

/// What waits to be written when the peer has closed its side keeps the connection, and nothing
/// but writing is waited for.
pub proof fn half_closed_connections_only_write(connection: ConnectionView)
    requires
        connection.wants_write(),
    ensures
        ({
            let (after, keep) = connection.serviced(true, true, false);
            keep && after.interest() == (Interest { read: false, write: true, hang_up: false })
        }),
{
}

/// A connection that follows the events does so for good: whatever is read from it, looked at,
/// answered or queued, it takes no request any more and never goes back.
pub proof fn streams_are_permanent(
    connection: ConnectionView,
    bytes: Seq<u8>,
    frame: Seq<char>,
    is_stream: bool,
    written: int,
    handled: usize,
    sequence: u64,
    now: u64,
)
    requires
        connection.mode == ConnectionMode::Subscriber,
    ensures
        connection.stepped(handled, sequence) == (connection, StepView::Idle),
        connection.received(bytes, now).mode == ConnectionMode::Subscriber,
        connection.event_queued(frame, now).mode == ConnectionMode::Subscriber,
        connection.answered(frame, is_stream, now).0.mode == ConnectionMode::Subscriber,
        !connection.answered(frame, is_stream, now).1,
        connection.wrote(written, now).0.mode == ConnectionMode::Subscriber,
        connection.ended().0.mode == ConnectionMode::Subscriber,
{
}

} // verus!
