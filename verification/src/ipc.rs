//! Frames of the inter-process protocol: one line each, a protocol version and a payload.

use crate::text;
use crate::text::{chars_of, is_whitespace, push_decimal};
use crate::wire::v1::Request;
use vstd::prelude::*;

verus! {

/// The version of the bootstrap schema, which never changes.
pub const BOOTSTRAP_VERSION: u16 = 0;

/// The newest version of the command protocol.
pub const CURRENT_VERSION: u16 = 1;

/// The oldest version of the command protocol that is understood.
pub const MIN_VERSION: u16 = 1;

#[derive(Clone, Copy, Debug, Eq, PartialEq)]
pub struct Frame<'a> {
    pub version: u16,
    pub payload: &'a str,
}

#[derive(Debug, Eq, PartialEq)]
pub enum FramingError {
    InvalidFrame,
    VersionMismatch { expected: u16, actual: u16 },
    InvalidPayload(String),
}

#[verifier::ext_equal]
pub enum FramingFault {
    InvalidFrame,
    VersionMismatch { expected: u16, actual: u16 },
    InvalidPayload(Seq<char>),
}

impl View for FramingError {
    type V = FramingFault;

    open spec fn view(&self) -> FramingFault {
        match self {
            FramingError::InvalidFrame => FramingFault::InvalidFrame,
            FramingError::VersionMismatch { expected, actual } => FramingFault::VersionMismatch {
                expected: *expected,
                actual: *actual,
            },
            FramingError::InvalidPayload(message) => FramingFault::InvalidPayload(message@),
        }
    }
}

/// Whether all of some characters are decimal digits.
pub open spec fn all_digits(text: Seq<char>) -> bool {
    forall|i: int| 0 <= i < text.len() ==> '0' <= #[trigger] text[i] <= '9'
}

/// The number that decimal digits stand for.
pub open spec fn number(digits: Seq<char>) -> int
    decreases digits.len(),
{
    if digits.len() == 0 {
        0
    } else {
        number(digits.drop_last()) * 10 + (digits.last() as int - '0' as int)
    }
}

/// The digits of a number that may have a plus sign in front.
pub open spec fn unsigned(text: Seq<char>) -> Seq<char> {
    if text.len() > 0 && text[0] == '+' {
        text.drop_first()
    } else {
        text
    }
}

/// The version that a text stands for, if it does.
pub open spec fn version_of(text: Seq<char>) -> Option<u16> {
    let digits = unsigned(text);
    if digits.len() > 0 && all_digits(digits) && number(digits) <= u16::MAX {
        Some(number(digits) as u16)
    } else {
        None
    }
}

/// Whether a text is one line with its end: nothing but the last character ends a line.
pub open spec fn is_line(text: Seq<char>) -> bool {
    &&& text.len() > 0
    &&& text.last() == '\n'
    &&& forall|i: int|
        0 <= i < text.len() - 1 ==> (#[trigger] text[i]) != '\n' && text[i] != '\r'
}

/// Whether a payload has no white space around it, and something in it.
pub open spec fn is_trimmed(payload: Seq<char>) -> bool {
    &&& payload.len() > 0
    &&& !text::whitespace(payload[0])
    &&& !text::whitespace(payload.last())
}

/// Whether the first space of a text is at a place.
pub open spec fn first_space(text: Seq<char>, at: int) -> bool {
    &&& 0 <= at < text.len()
    &&& text[at] == ' '
    &&& forall|i: int| 0 <= i < at ==> #[trigger] text[i] != ' '
}

/// Whether a text is a frame with a version and a payload.
pub open spec fn is_frame(text: Seq<char>, version: u16, payload: Seq<char>) -> bool {
    &&& is_line(text)
    &&& is_trimmed(payload)
    &&& exists|at: int|
        first_space(text, at) && version_of(text.take(at)) == Some(version) && payload
            == text.subrange(at + 1, text.len() - 1)
}

/// A text is a frame with one version and one payload at most.
pub proof fn frames_are_unambiguous(
    text: Seq<char>,
    version: u16,
    payload: Seq<char>,
    other_version: u16,
    other_payload: Seq<char>,
)
    requires
        is_frame(text, version, payload),
        is_frame(text, other_version, other_payload),
    ensures
        version == other_version,
        payload == other_payload,
{
    let a = choose|at: int|
        first_space(text, at) && version_of(text.take(at)) == Some(version) && payload
            == text.subrange(at + 1, text.len() - 1);
    let b = choose|at: int|
        first_space(text, at) && version_of(text.take(at)) == Some(other_version) && other_payload
            == text.subrange(at + 1, text.len() - 1);
    assert(first_space(text, a) && first_space(text, b));
    assert(a == b);
}

/// The version that characters stand for, from the first up to `end`.
fn read_version(chars: &Vec<char>, end: usize) -> (r: Option<u16>)
    requires
        end <= chars@.len(),
    ensures
        r == version_of(chars@.take(end as int)),
{
    let ghost text = chars@.take(end as int);
    let ghost digits = unsigned(text);
    let start: usize = if end > 0 && chars[0] == '+' {
        1
    } else {
        0
    };
    assert(digits =~= chars@.subrange(start as int, end as int));
    if start == end {
        return None;
    }
    let mut value: u32 = 0;
    let mut i: usize = start;
    assert(digits.take(0) =~= Seq::empty());
    while i < end
        invariant
            start <= i <= end <= chars@.len(),
            text == chars@.take(end as int),
            digits == unsigned(text),
            digits == chars@.subrange(start as int, end as int),
            start < end,
            value <= 65_535,
            value == number(digits.take(i - start)),
            forall|j: int| 0 <= j < i - start ==> '0' <= #[trigger] digits[j] <= '9',
        decreases end - i,
    {
        let c: char = chars[i];
        assert(digits[i - start] == c);
        assert(digits.take(i + 1 - start).drop_last() =~= digits.take(i - start));
        if c < '0' || c > '9' {
            assert(!all_digits(digits));
            return None;
        }
        value = value * 10 + (c as u32 - '0' as u32);
        assert(value == number(digits.take(i + 1 - start)));
        if value > 65_535 {
            proof {
                number_grows(digits, i + 1 - start);
            }
            return None;
        }
        i = i + 1;
    }
    assert(digits.take(i - start) =~= digits);
    Some(value as u16)
}

/// More digits never make a smaller number.
proof fn number_grows(digits: Seq<char>, n: int)
    requires
        0 <= n <= digits.len(),
        number(digits.take(n)) > u16::MAX,
    ensures
        all_digits(digits) ==> number(digits) > u16::MAX,
    decreases digits.len(),
{
    if n == digits.len() {
        assert(digits.take(n) =~= digits);
    } else {
        let rest = digits.drop_last();
        assert(rest.take(n) =~= digits.take(n));
        number_grows(rest, n);
        if all_digits(digits) {
            assert forall|i: int| 0 <= i < rest.len() implies '0' <= #[trigger] rest[i] <= '9' by {
                assert(rest[i] == digits[i]);
            }
            assert('0' <= digits[digits.len() - 1] <= '9');
        }
    }
}

/// Splits one complete line into its version and its payload.
pub fn parse_frame(frame: &str) -> (r: Result<Frame<'_>, FramingError>)
    ensures
        match r {
            Ok(parsed) => is_frame(frame@, parsed.version, parsed.payload@),
            Err(error) => error@ == FramingFault::InvalidFrame && forall|v: u16, p: Seq<char>|
                !is_frame(frame@, v, p),
        },
{
    let chars: Vec<char> = chars_of(frame);
    let count: usize = chars.len();
    if count == 0 || chars[count - 1] != '\n' {
        return Err(FramingError::InvalidFrame);
    }
    let end: usize = count - 1;
    let mut space: Option<usize> = None;
    let mut i: usize = 0;
    while i < end
        invariant
            i <= end,
            end + 1 == chars@.len(),
            chars@ == frame@,
            forall|j: int| 0 <= j < i ==> (#[trigger] frame@[j]) != '\n' && frame@[j] != '\r',
            match space {
                Some(at) => at < i && first_space(frame@, at as int),
                None => forall|j: int| 0 <= j < i ==> #[trigger] frame@[j] != ' ',
            },
        decreases end - i,
    {
        let c: char = chars[i];
        if c == '\n' || c == '\r' {
            assert(!is_line(frame@));
            return Err(FramingError::InvalidFrame);
        }
        if c == ' ' && space.is_none() {
            space = Some(i);
        }
        i = i + 1;
    }
    let at: usize = match space {
        Some(at) => at,
        None => {
            assert forall|a: int| !first_space(frame@, a) by {
                if first_space(frame@, a) {
                    if a < end {
                        assert(frame@[a] != ' ');
                    }
                }
            }
            return Err(FramingError::InvalidFrame);
        },
    };
    assert forall|a: int| first_space(frame@, a) implies a == at by {}
    let start: usize = at + 1;
    let ghost payload = frame@.subrange(start as int, end as int);
    if start == end || is_whitespace(chars[start]) || is_whitespace(chars[end - 1]) {
        assert(!is_trimmed(payload));
        return Err(FramingError::InvalidFrame);
    }
    match read_version(&chars, at) {
        Some(version) => {
            let payload: &str = frame.substring_char(start, end);
            assert(first_space(frame@, at as int));
            Ok(Frame { version, payload })
        },
        None => Err(FramingError::InvalidFrame),
    }
}

/// The text of a frame.
pub open spec fn frame_of(version: u16, payload: Seq<char>) -> Seq<char> {
    text::decimal(version as int) + seq![' '] + payload + seq!['\n']
}

/// Builds a frame from a version and an encoded payload.
pub fn frame_text(version: u16, payload: &str) -> (r: String)
    ensures
        r@ == frame_of(version, payload@),
{
    let mut frame: String = String::new();
    push_decimal(&mut frame, version as u64);
    proof {
        reveal_strlit(" ");
        reveal_strlit("\n");
        assert(" "@ =~= seq![' ']);
        assert("\n"@ =~= seq!['\n']);
    }
    frame.append(" ");
    frame.append(payload);
    frame.append("\n");
    assert(frame@ =~= frame_of(version, payload@));
    frame
}

/// Splits a frame that has to have a version.
pub fn decode_frame(frame: &str, expected_version: u16) -> (r: Result<&str, FramingError>)
    ensures
        match r {
            Ok(payload) => is_frame(frame@, expected_version, payload@),
            Err(error) => match error@ {
                FramingFault::InvalidFrame => forall|v: u16, p: Seq<char>| !is_frame(frame@, v, p),
                FramingFault::VersionMismatch { expected, actual } => expected == expected_version
                    && actual != expected_version && exists|p: Seq<char>|
                    is_frame(frame@, actual, p),
                FramingFault::InvalidPayload(_) => false,
            },
        },
{
    match parse_frame(frame) {
        Ok(parsed) => {
            assert(is_frame(frame@, parsed.version, parsed.payload@));
            if parsed.version != expected_version {
                Err(
                    FramingError::VersionMismatch {
                        expected: expected_version,
                        actual: parsed.version,
                    },
                )
            } else {
                Ok(parsed.payload)
            }
        },
        Err(_) => Err(FramingError::InvalidFrame),
    }
}

/// The payload of a request, by the version of its schema.
#[derive(Clone, Copy, Debug, Eq, PartialEq)]
pub enum VersionedPayload<'a> {
    V1(&'a str),
}

#[derive(Debug, Eq, PartialEq)]
pub enum RequestDecodeError {
    Framing(FramingError),
    UnsupportedVersion { requested: u16, minimum: u16, current: u16 },
}

/// Splits a request and tells by which schema its payload is to be decoded.
pub fn decode_request(frame: &str) -> (r: Result<VersionedPayload<'_>, RequestDecodeError>)
    ensures
        match r {
            Ok(request) => match request {
                VersionedPayload::V1(payload) => is_frame(frame@, 1, payload@),
            },
            Err(error) => match error {
                RequestDecodeError::UnsupportedVersion { requested, minimum, current } => minimum
                    == MIN_VERSION && current == CURRENT_VERSION && requested != 1 && exists|
                    p: Seq<char>,
                |
                    is_frame(frame@, requested, p),
                RequestDecodeError::Framing(error) => error@ == FramingFault::InvalidFrame
                    && forall|v: u16, p: Seq<char>| !is_frame(frame@, v, p),
            },
        },
{
    match parse_frame(frame) {
        Ok(parsed) => {
            assert(is_frame(frame@, parsed.version, parsed.payload@));
            if parsed.version == 1 {
                Ok(VersionedPayload::V1(parsed.payload))
            } else {
                Err(
                    RequestDecodeError::UnsupportedVersion {
                        requested: parsed.version,
                        minimum: MIN_VERSION,
                        current: CURRENT_VERSION,
                    },
                )
            }
        },
        Err(error) => Err(RequestDecodeError::Framing(error)),
    }
}

/// A request, by the version of its schema.
#[derive(Debug, Eq, PartialEq)]
pub enum VersionedRequest {
    V1(Request),
}

/// Takes in what came of decoding the payload of a request: the request, or what is wrong with
/// the payload.
pub fn decoded_request(decoded: Result<Request, String>) -> (r: Result<
    VersionedRequest,
    RequestDecodeError,
>)
    ensures
        match decoded {
            Ok(request) => r == Ok::<VersionedRequest, RequestDecodeError>(
                VersionedRequest::V1(request),
            ),
            Err(message) => r is Err && r->Err_0 is Framing && (r->Err_0->Framing_0)@
                == FramingFault::InvalidPayload(message@),
        },
{
    match decoded {
        Ok(request) => Ok(VersionedRequest::V1(request)),
        Err(message) => Err(RequestDecodeError::Framing(FramingError::InvalidPayload(message))),
    }
}

proof fn decimal_reads_back(n: int)
    requires
        n >= 0,
    ensures
        text::decimal(n).len() > 0,
        all_digits(text::decimal(n)),
        number(text::decimal(n)) == n,
    decreases n,
{
    let digits = text::decimal(n);
    if n < 10 {
        assert(digits.drop_last() =~= Seq::empty());
        assert(number(digits.drop_last()) == 0);
    } else {
        decimal_reads_back(n / 10);
        assert(digits.drop_last() =~= text::decimal(n / 10));
        assert forall|i: int| 0 <= i < digits.len() implies '0' <= #[trigger] digits[i] <= '9' by {
            if i < digits.len() - 1 {
                assert(digits[i] == text::decimal(n / 10)[i]);
            }
        }
    }
}

/// A frame that is built from a version and a payload is split into the same again, where the
/// payload is one line with no white space around it.
pub proof fn frames_round_trip(version: u16, payload: Seq<char>)
    requires
        is_trimmed(payload),
        forall|i: int|
            0 <= i < payload.len() ==> (#[trigger] payload[i]) != '\n' && payload[i] != '\r',
    ensures
        is_frame(frame_of(version, payload), version, payload),
{
    let digits = text::decimal(version as int);
    let frame = frame_of(version, payload);
    decimal_reads_back(version as int);
    let at = digits.len() as int;
    assert(frame.take(at) =~= digits);
    assert(frame.subrange(at + 1, frame.len() - 1) =~= payload);
    assert(unsigned(digits) == digits) by {
        assert('0' <= digits[0] <= '9');
    }
    assert(first_space(frame, at)) by {
        assert forall|i: int| 0 <= i < at implies #[trigger] frame[i] != ' ' by {
            assert(frame[i] == digits[i]);
        }
    }
    assert(is_line(frame)) by {
        assert forall|i: int| 0 <= i < frame.len() - 1 implies (#[trigger] frame[i]) != '\n'
            && frame[i] != '\r' by {
            if i < at {
                assert(frame[i] == digits[i]);
            } else if i > at {
                assert(frame[i] == payload[i - at - 1]);
            }
        }
    }
}

} // verus!
