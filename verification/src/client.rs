//! What a client of the protocol decides: which command its arguments mean, what an answer
//! amounts to, and whether a stream of events is whole.

use crate::ipc;
use crate::scan;
use crate::scan::{parse_number, strip_prefix};
use crate::snapshot;
use crate::text;
use crate::text::{chars_of, push_decimal, reads};
use crate::wire::v1;
use crate::wire::v1::{
    Command, DesktopSnapshot, ErrorCode, OutputSelector, Response, Success, WorkspaceSelector,
};
use vstd::prelude::*;

verus! {

/// Why a client gives up.
#[derive(Debug, Eq, PartialEq)]
pub enum Failure {
    /// The arguments make no sense.
    Usage(String),
    /// The server cannot be talked to.
    Ipc(String),
    /// The server refused.
    Server(v1::Error),
    /// The stream of events broke off.
    Stream(String),
}

#[verifier::ext_equal]
pub enum FailureView {
    Usage(Seq<char>),
    Ipc(Seq<char>),
    Server(v1::ErrorView),
    Stream(Seq<char>),
}

impl View for Failure {
    type V = FailureView;

    open spec fn view(&self) -> FailureView {
        match self {
            Failure::Usage(message) => FailureView::Usage(message@),
            Failure::Ipc(message) => FailureView::Ipc(message@),
            Failure::Server(error) => FailureView::Server(error@),
            Failure::Stream(message) => FailureView::Stream(message@),
        }
    }
}

pub open spec fn code_name(code: ErrorCode) -> Seq<char> {
    match code {
        ErrorCode::InvalidRequest => "InvalidRequest"@,
        ErrorCode::NotFound => "NotFound"@,
        ErrorCode::Conflict => "Conflict"@,
        ErrorCode::Internal => "Internal"@,
    }
}

fn name_of_code(code: ErrorCode) -> (r: &'static str)
    ensures
        r@ == code_name(code),
{
    match code {
        ErrorCode::InvalidRequest => "InvalidRequest",
        ErrorCode::NotFound => "NotFound",
        ErrorCode::Conflict => "Conflict",
        ErrorCode::Internal => "Internal",
    }
}

impl FailureView {
    /// The code that the process exits with.
    pub open spec fn exit_code(self) -> u8 {
        match self {
            FailureView::Usage(_) => 2,
            FailureView::Ipc(_) => 3,
            FailureView::Server(_) => 4,
            FailureView::Stream(_) => 5,
        }
    }

    pub open spec fn message(self) -> Seq<char> {
        match self {
            FailureView::Usage(message) => message,
            FailureView::Ipc(message) => message,
            FailureView::Server(error) => code_name(error.code) + ": "@ + error.message
                + " (sequence "@ + text::decimal(error.sequence as int) + ")"@,
            FailureView::Stream(message) => message,
        }
    }
}

impl Failure {
    pub fn exit_code(&self) -> (r: u8)
        ensures
            r == self@.exit_code(),
    {
        match self {
            Failure::Usage(_) => 2,
            Failure::Ipc(_) => 3,
            Failure::Server(_) => 4,
            Failure::Stream(_) => 5,
        }
    }

    pub fn message(&self) -> (r: String)
        ensures
            r@ == self@.message(),
    {
        match self {
            Failure::Usage(message) => message.clone(),
            Failure::Ipc(message) => message.clone(),
            Failure::Server(error) => {
                let mut r: String = name_of_code(error.code).to_owned();
                r.append(": ");
                r.append(error.message.as_str());
                r.append(" (sequence ");
                push_decimal(&mut r, error.sequence);
                r.append(")");
                r
            },
            Failure::Stream(message) => message.clone(),
        }
    }
}

pub open spec fn optional(text: Option<&str>) -> Option<Seq<char>> {
    match text {
        Some(text) => Some(text@),
        None => None,
    }
}

/// The output that an argument means.
pub open spec fn meant_output(value: Option<Seq<char>>) -> Result<
    v1::OutputSelectorView,
    Seq<char>,
> {
    match value {
        None => Ok(v1::OutputSelectorView::Active),
        Some(value) => if value == "active"@ {
            Ok(v1::OutputSelectorView::Active)
        } else if value.len() == 0 {
            Err("output selector cannot be empty"@)
        } else {
            match scan::number(value, 10) {
                Some(id) => Ok(v1::OutputSelectorView::Id(v1::OutputId(id))),
                None => Ok(v1::OutputSelectorView::Key(value)),
            }
        },
    }
}

/// The workspace that an argument means: an id behind `id:`, a number on an output, or a name.
pub open spec fn meant_workspace(value: Seq<char>, output: Option<Seq<char>>) -> Result<
    v1::WorkspaceSelectorView,
    Seq<char>,
> {
    match scan::after_prefix(value, "id:"@) {
        Some(id) => if output is Some {
            Err("id workspace selector cannot use --output"@)
        } else {
            match scan::number(id, 10) {
                Some(id) => Ok(v1::WorkspaceSelectorView::Id(v1::WorkspaceId(id))),
                None => Err("invalid workspace ID"@),
            }
        },
        None => match scan::number(value, 10) {
            Some(index) => if index == 0 {
                Err("workspace index is one-based"@)
            } else {
                match meant_output(output) {
                    Ok(output) => Ok(v1::WorkspaceSelectorView::LocalIndex { output, index }),
                    Err(message) => Err(message),
                }
            },
            None => if output is Some {
                Err("named workspace selector cannot use --output"@)
            } else if value.len() == 0 {
                Err("workspace selector cannot be empty"@)
            } else {
                Ok(v1::WorkspaceSelectorView::Name(value))
            },
        },
    }
}

/// The output that an argument means.
pub fn parse_output(value: Option<&str>) -> (r: Result<OutputSelector, String>)
    ensures
        match meant_output(optional(value)) {
            Ok(selector) => r is Ok && r->Ok_0@ == selector,
            Err(message) => r is Err && r->Err_0@ == message,
        },
{
    let value: &str = match value {
        None => {
            return Ok(OutputSelector::Active);
        },
        Some(value) => value,
    };
    if reads(&value.to_owned(), "active") {
        return Ok(OutputSelector::Active);
    }
    let chars: Vec<char> = chars_of(value);
    if chars.len() == 0 {
        return Err("output selector cannot be empty".to_owned());
    }
    match parse_number(&chars, 10) {
        Some(id) => Ok(OutputSelector::Id(v1::OutputId(id))),
        None => Ok(OutputSelector::Key(value.to_owned())),
    }
}

/// The workspace that an argument means.
pub fn parse_workspace(value: &str, output: Option<&str>) -> (r: Result<WorkspaceSelector, String>)
    ensures
        match meant_workspace(value@, optional(output)) {
            Ok(selector) => r is Ok && r->Ok_0@ == selector,
            Err(message) => r is Err && r->Err_0@ == message,
        },
{
    let chars: Vec<char> = chars_of(value);
    if let Some(id) = strip_prefix(&chars, "id:") {
        if output.is_some() {
            return Err("id workspace selector cannot use --output".to_owned());
        }
        return match parse_number(&id, 10) {
            Some(id) => Ok(WorkspaceSelector::Id(v1::WorkspaceId(id))),
            None => Err("invalid workspace ID".to_owned()),
        };
    }
    if let Some(index) = parse_number(&chars, 10) {
        if index == 0 {
            return Err("workspace index is one-based".to_owned());
        }
        return match parse_output(output) {
            Ok(output) => Ok(WorkspaceSelector::LocalIndex { output, index }),
            Err(message) => Err(message),
        };
    }
    if output.is_some() {
        return Err("named workspace selector cannot use --output".to_owned());
    }
    if chars.len() == 0 {
        return Err("workspace selector cannot be empty".to_owned());
    }
    Ok(WorkspaceSelector::Name(value.to_owned()))
}

/// The first output of a list with a stable key.
pub open spec fn output_keyed(list: Seq<v1::OutputSnapshotView>, key: Seq<char>) -> Option<
    v1::OutputId,
>
    decreases list.len(),
{
    if list.len() == 0 {
        None
    } else if list[0].stable_key == key {
        Some(list[0].id)
    } else {
        output_keyed(list.skip(1), key)
    }
}

/// The first workspace of a list with a name.
pub open spec fn workspace_named(list: Seq<v1::WorkspaceSnapshotView>, name: Seq<char>) -> Option<
    v1::WorkspaceId,
>
    decreases list.len(),
{
    if list.len() == 0 {
        None
    } else if list[0].name == Some(name) {
        Some(list[0].id)
    } else {
        workspace_named(list.skip(1), name)
    }
}

/// The first workspace of a list at a place of an output.
pub open spec fn workspace_at(
    list: Seq<v1::WorkspaceSnapshotView>,
    output: v1::OutputId,
    index: u32,
) -> Option<v1::WorkspaceId>
    decreases list.len(),
{
    if list.len() == 0 {
        None
    } else if list[0].output == Some(output) && list[0].local_index == Some(index) {
        Some(list[0].id)
    } else {
        workspace_at(list.skip(1), output, index)
    }
}

impl v1::SnapshotView {
    /// The output that a selector means.
    pub open spec fn output_of(self, selector: v1::OutputSelectorView) -> Option<v1::OutputId> {
        match selector {
            v1::OutputSelectorView::Active => self.active_output,
            v1::OutputSelectorView::Id(id) => if snapshot::output_with_id(self.outputs, id) is Some {
                Some(id)
            } else {
                None
            },
            v1::OutputSelectorView::Key(key) => output_keyed(self.outputs, key),
        }
    }

    /// The workspace that a selector means, or what is unknown of it.
    pub open spec fn workspace_of(self, selector: v1::WorkspaceSelectorView) -> Result<
        v1::WorkspaceId,
        Seq<char>,
    > {
        match selector {
            v1::WorkspaceSelectorView::Id(id) => if snapshot::workspace_with_id(
                self.workspaces,
                id,
            ) is Some {
                Ok(id)
            } else {
                Err("unknown workspace"@)
            },
            v1::WorkspaceSelectorView::Name(name) => match workspace_named(self.workspaces, name) {
                Some(id) => Ok(id),
                None => Err("unknown workspace"@),
            },
            v1::WorkspaceSelectorView::LocalIndex { output, index } => match self.output_of(
                output,
            ) {
                None => Err("unknown output"@),
                Some(output) => match workspace_at(self.workspaces, output, index) {
                    Some(id) => Ok(id),
                    None => Err("unknown workspace"@),
                },
            },
        }
    }

    /// The workspace that an argument means.
    pub open spec fn workspace_meant(self, value: Seq<char>, output: Option<Seq<char>>) -> Result<
        v1::WorkspaceId,
        Seq<char>,
    > {
        match meant_workspace(value, output) {
            Ok(selector) => self.workspace_of(selector),
            Err(message) => Err(message),
        }
    }

    /// The workspace that the active output shows.
    pub open spec fn active_workspace(self) -> Option<v1::WorkspaceId> {
        match self.active_output {
            Some(id) => match snapshot::output_with_id(self.outputs, id) {
                Some(output) => Some(output.active_workspace),
                None => None,
            },
            None => None,
        }
    }
}

fn find_key(snapshot: &DesktopSnapshot, key: &String) -> (r: Option<v1::OutputId>)
    ensures
        r == output_keyed(snapshot@.outputs, key@),
{
    let ghost all = snapshot@.outputs;
    let mut i: usize = 0;
    assert(all.skip(0) =~= all);
    while i < snapshot.outputs.len()
        invariant
            i <= snapshot.outputs@.len(),
            all == snapshot@.outputs,
            output_keyed(all, key@) == output_keyed(all.skip(i as int), key@),
        decreases snapshot.outputs@.len() - i,
    {
        assert(all.skip(i as int)[0] == snapshot.outputs@[i as int]@);
        assert(all.skip(i as int).skip(1) =~= all.skip(i + 1));
        if text::same(&snapshot.outputs[i].stable_key, key) {
            return Some(snapshot.outputs[i].id);
        }
        i = i + 1;
    }
    None
}

fn find_name(snapshot: &DesktopSnapshot, name: &String) -> (r: Option<v1::WorkspaceId>)
    ensures
        r == workspace_named(snapshot@.workspaces, name@),
{
    let ghost all = snapshot@.workspaces;
    let mut i: usize = 0;
    assert(all.skip(0) =~= all);
    while i < snapshot.workspaces.len()
        invariant
            i <= snapshot.workspaces@.len(),
            all == snapshot@.workspaces,
            workspace_named(all, name@) == workspace_named(all.skip(i as int), name@),
        decreases snapshot.workspaces@.len() - i,
    {
        assert(all.skip(i as int)[0] == snapshot.workspaces@[i as int]@);
        assert(all.skip(i as int).skip(1) =~= all.skip(i + 1));
        if let Some(candidate) = &snapshot.workspaces[i].name {
            if text::same(candidate, name) {
                return Some(snapshot.workspaces[i].id);
            }
        }
        i = i + 1;
    }
    None
}

fn find_index(snapshot: &DesktopSnapshot, output: v1::OutputId, index: u32) -> (r: Option<
    v1::WorkspaceId,
>)
    ensures
        r == workspace_at(snapshot@.workspaces, output, index),
{
    let ghost all = snapshot@.workspaces;
    let mut i: usize = 0;
    assert(all.skip(0) =~= all);
    while i < snapshot.workspaces.len()
        invariant
            i <= snapshot.workspaces@.len(),
            all == snapshot@.workspaces,
            workspace_at(all, output, index) == workspace_at(all.skip(i as int), output, index),
        decreases snapshot.workspaces@.len() - i,
    {
        assert(all.skip(i as int)[0] == snapshot.workspaces@[i as int]@);
        assert(all.skip(i as int).skip(1) =~= all.skip(i + 1));
        if let (Some(o), Some(n)) = (
            snapshot.workspaces[i].output,
            snapshot.workspaces[i].local_index,
        ) {
            if o == output && n == index {
                return Some(snapshot.workspaces[i].id);
            }
        }
        i = i + 1;
    }
    None
}

/// The output that a selector means.
pub fn resolve_output_id(snapshot: &DesktopSnapshot, selector: &OutputSelector) -> (r: Result<
    v1::OutputId,
    String,
>)
    ensures
        match snapshot@.output_of(selector@) {
            Some(id) => r == Ok::<v1::OutputId, String>(id),
            None => r is Err && r->Err_0@ == "unknown output"@,
        },
{
    let found: Option<v1::OutputId> = match selector {
        OutputSelector::Active => snapshot.active_output,
        OutputSelector::Id(id) => match snapshot::find_output(&snapshot.outputs, *id) {
            Some(_) => Some(*id),
            None => None,
        },
        OutputSelector::Key(key) => find_key(snapshot, key),
    };
    match found {
        Some(id) => Ok(id),
        None => Err("unknown output".to_owned()),
    }
}

/// The workspace that an argument means.
pub fn resolve_workspace_id(snapshot: &DesktopSnapshot, selector: &str, output: Option<&str>) -> (r:
    Result<v1::WorkspaceId, String>)
    ensures
        match snapshot@.workspace_meant(selector@, optional(output)) {
            Ok(id) => r == Ok::<v1::WorkspaceId, String>(id),
            Err(message) => r is Err && r->Err_0@ == message,
        },
{
    let selector: WorkspaceSelector = match parse_workspace(selector, output) {
        Ok(selector) => selector,
        Err(message) => {
            return Err(message);
        },
    };
    let found: Option<v1::WorkspaceId> = match selector {
        WorkspaceSelector::Id(id) => match snapshot::find_workspace(&snapshot.workspaces, id) {
            Some(_) => Some(id),
            None => None,
        },
        WorkspaceSelector::Name(name) => find_name(snapshot, &name),
        WorkspaceSelector::LocalIndex { output, index } => {
            match resolve_output_id(snapshot, &output) {
                Ok(output) => find_index(snapshot, output, index),
                Err(message) => {
                    return Err(message);
                },
            }
        },
    };
    match found {
        Some(id) => Ok(id),
        None => Err("unknown workspace".to_owned()),
    }
}

/// The workspace that the active output shows.
pub fn active_workspace(snapshot: &DesktopSnapshot) -> (r: Option<v1::WorkspaceId>)
    ensures
        r == snapshot@.active_workspace(),
{
    match snapshot.active_output {
        Some(id) => match snapshot::find_output(&snapshot.outputs, id) {
            Some(output) => Some(output.active_workspace),
            None => None,
        },
        None => None,
    }
}

/// The version that both sides speak: the highest.
pub open spec fn common_version(minimum: u16, current: u16) -> Option<u16> {
    let low = if minimum < ipc::MIN_VERSION {
        ipc::MIN_VERSION
    } else {
        minimum
    };
    let high = if current > ipc::CURRENT_VERSION {
        ipc::CURRENT_VERSION
    } else {
        current
    };
    if low > high {
        None
    } else {
        Some(high)
    }
}

pub open spec fn no_common_version(minimum: u16, current: u16) -> Seq<char> {
    "no common IPC version (server "@ + text::decimal(minimum as int) + "..="@ + text::decimal(
        current as int,
    ) + ", client "@ + text::decimal(ipc::MIN_VERSION as int) + "..="@ + text::decimal(
        ipc::CURRENT_VERSION as int,
    ) + ")"@
}

/// The version to speak with a server that speaks those from `minimum` to `current`.
pub fn negotiate(minimum: u16, current: u16) -> (r: Result<u16, String>)
    ensures
        match common_version(minimum, current) {
            Some(version) => r == Ok::<u16, String>(version),
            None => r is Err && r->Err_0@ == no_common_version(minimum, current),
        },
{
    let low: u16 = if minimum < ipc::MIN_VERSION { ipc::MIN_VERSION } else { minimum };
    let high: u16 = if current > ipc::CURRENT_VERSION { ipc::CURRENT_VERSION } else { current };
    if low <= high {
        return Ok(high);
    }
    let mut message: String = "no common IPC version (server ".to_owned();
    push_decimal(&mut message, minimum as u64);
    message.append("..=");
    push_decimal(&mut message, current as u64);
    message.append(", client ");
    push_decimal(&mut message, ipc::MIN_VERSION as u64);
    message.append("..=");
    push_decimal(&mut message, ipc::CURRENT_VERSION as u64);
    message.append(")");
    Err(message)
}

/// The version that is agreed on is one that both sides speak, and the highest.
pub proof fn agreed_versions_are_common(minimum: u16, current: u16, other: u16)
    ensures
        common_version(minimum, current) matches Some(version) ==> minimum <= version <= current
            && ipc::MIN_VERSION <= version <= ipc::CURRENT_VERSION,
        minimum <= other <= current && ipc::MIN_VERSION <= other <= ipc::CURRENT_VERSION ==> (
        common_version(minimum, current) matches Some(version) && other <= version),
{
}

/// The sequence and the snapshot that an answer to a request for the state holds.
pub fn expect_state(response: Response) -> (r: Result<(u64, DesktopSnapshot), Failure>)
    ensures
        match response@ {
            v1::ResponseView::Success(v1::SuccessView::State { sequence, snapshot }) => r is Ok && (
            r->Ok_0).0 == sequence && (r->Ok_0).1@ == snapshot,
            v1::ResponseView::Success(_) => r is Err && r->Err_0@ == FailureView::Ipc(
                "unexpected IPC response"@,
            ),
            v1::ResponseView::Error(error) => r is Err && r->Err_0@ == FailureView::Server(error),
        },
{
    match response {
        Response::Success(Success::State { sequence, snapshot }) => Ok((sequence, snapshot)),
        Response::Success(_) => Err(Failure::Ipc("unexpected IPC response".to_owned())),
        Response::Error(error) => Err(Failure::Server(error)),
    }
}

/// The sequence that an answer to a command holds.
pub fn expect_handled(response: Response) -> (r: Result<u64, Failure>)
    ensures
        match response@ {
            v1::ResponseView::Success(v1::SuccessView::Handled { sequence }) => r == Ok::<
                u64,
                Failure,
            >(sequence),
            v1::ResponseView::Success(_) => r is Err && r->Err_0@ == FailureView::Ipc(
                "unexpected IPC response"@,
            ),
            v1::ResponseView::Error(error) => r is Err && r->Err_0@ == FailureView::Server(error),
        },
{
    match response {
        Response::Success(Success::Handled { sequence }) => Ok(sequence),
        Response::Success(_) => Err(Failure::Ipc("unexpected IPC response".to_owned())),
        Response::Error(error) => Err(Failure::Server(error)),
    }
}

/// What is said of a command that was done.
pub fn success_line(sequence: u64) -> (r: String)
    ensures
        r@ == "ok (sequence "@ + text::decimal(sequence as int) + ")\n"@,
{
    let mut r: String = "ok (sequence ".to_owned();
    push_decimal(&mut r, sequence);
    r.append(")\n");
    r
}

/// A stream of events that is being followed.
#[derive(Clone, Copy, Debug, Eq, PartialEq, Structural)]
pub struct EventFollower {
    /// The sequence of the next event; none where there is no number left.
    pub expected: Option<u64>,
}

pub open spec fn after(sequence: u64) -> Option<u64> {
    if sequence < u64::MAX {
        Some((sequence + 1) as u64)
    } else {
        None
    }
}

fn next_after(sequence: u64) -> (r: Option<u64>)
    ensures
        r == after(sequence),
{
    if sequence < u64::MAX {
        Some(sequence + 1)
    } else {
        None
    }
}

pub open spec fn gap_message(expected: u64, received: u64) -> Seq<char> {
    "event stream sequence gap: expected "@ + text::decimal(expected as int) + ", received "@
        + text::decimal(received as int)
}

impl EventFollower {
    /// A stream that starts with the snapshot of a sequence.
    pub fn start(sequence: u64) -> (r: Self)
        ensures
            r.expected == after(sequence),
    {
        EventFollower { expected: next_after(sequence) }
    }

    /// Takes in an event: it must be the next one.
    pub fn accept(&mut self, sequence: u64) -> (r: Result<(), String>)
        ensures
            match old(self).expected {
                None => r is Err && r->Err_0@ == "event stream sequence overflow"@
                    && *final(self) == *old(self),
                Some(expected) => if sequence == expected {
                    r is Ok && final(self).expected == after(sequence)
                } else {
                    r is Err && r->Err_0@ == gap_message(expected, sequence) && *final(self)
                        == *old(self)
                },
            },
    {
        let expected: u64 = match self.expected {
            Some(expected) => expected,
            None => {
                return Err("event stream sequence overflow".to_owned());
            },
        };
        if sequence != expected {
            let mut message: String = "event stream sequence gap: expected ".to_owned();
            push_decimal(&mut message, expected);
            message.append(", received ");
            push_decimal(&mut message, sequence);
            return Err(message);
        }
        self.expected = next_after(sequence);
        Ok(())
    }
}

/// What a client that follows the events expects after some have been taken in.
pub open spec fn followed(start: u64, events: Seq<u64>) -> Option<Option<u64>>
    decreases events.len(),
{
    if events.len() == 0 {
        Some(after(start))
    } else {
        match followed(start, events.drop_last()) {
            Some(Some(expected)) => if events.last() == expected {
                Some(after(expected))
            } else {
                None
            },
            _ => None,
        }
    }
}

/// Events that were taken in follow the snapshot and each other without a gap: the first has the
/// sequence after that of the snapshot, and each the one after that before it.
pub proof fn followed_events_have_no_gap(start: u64, events: Seq<u64>, i: int)
    requires
        followed(start, events) is Some,
        0 <= i < events.len(),
    ensures
        events[i] == start + 1 + i,
    decreases events.len(),
{
    followed_to(start, events);
    if i < events.len() - 1 {
        followed_events_have_no_gap(start, events.drop_last(), i);
    } else {
        followed_to(start, events.drop_last());
    }
}

proof fn followed_to(start: u64, events: Seq<u64>)
    requires
        followed(start, events) is Some,
    ensures
        match followed(start, events)->0 {
            Some(expected) => expected == start + 1 + events.len(),
            None => start + events.len() == u64::MAX,
        },
    decreases events.len(),
{
    if events.len() > 0 {
        followed_to(start, events.drop_last());
    }
}

/// A direction as it is named in arguments.
#[derive(Clone, Copy, Debug, Eq, PartialEq, Structural)]
pub enum DirectionArg {
    Left,
    Right,
    Up,
    Down,
}

pub open spec fn direction_of(direction: DirectionArg) -> v1::Direction {
    match direction {
        DirectionArg::Left => v1::Direction { x_bits: 0xbff0_0000_0000_0000, y_bits: 0 },
        DirectionArg::Right => v1::Direction { x_bits: 0x3ff0_0000_0000_0000, y_bits: 0 },
        DirectionArg::Up => v1::Direction { x_bits: 0, y_bits: 0xbff0_0000_0000_0000 },
        DirectionArg::Down => v1::Direction { x_bits: 0, y_bits: 0x3ff0_0000_0000_0000 },
    }
}

pub fn direction_value(direction: DirectionArg) -> (r: v1::Direction)
    ensures
        r == direction_of(direction),
{
    match direction {
        DirectionArg::Left => v1::Direction { x_bits: 0xbff0_0000_0000_0000, y_bits: 0 },
        DirectionArg::Right => v1::Direction { x_bits: 0x3ff0_0000_0000_0000, y_bits: 0 },
        DirectionArg::Up => v1::Direction { x_bits: 0, y_bits: 0xbff0_0000_0000_0000 },
        DirectionArg::Down => v1::Direction { x_bits: 0, y_bits: 0x3ff0_0000_0000_0000 },
    }
}

/// What to do with a workspace.
#[allow(inconsistent_fields)]
#[derive(Debug, Eq, PartialEq)]
pub enum WorkspaceCommand {
    Focus { workspace: String, output: Option<String> },
    Rename { workspace: String, name: String, output: Option<String> },
    ClearName { workspace: String, output: Option<String> },
    Move { workspace: String, output: String, index: Option<u32>, activate: bool },
}

/// What to do with a window; where none is named, with the focused one.
#[allow(inconsistent_fields)]
#[derive(Debug, Eq, PartialEq)]
pub enum WindowCommand {
    Focus { direction: DirectionArg },
    Activate { window: u64 },
    Close { window: Option<u64> },
    Mode { mode: v1::WindowMode, window: Option<u64> },
    Move { workspace: String, window: Option<u64>, output: Option<String>, activate: bool },
}

/// What to do with a camera; where no workspace is named, with that of the active one.
#[derive(Debug, Eq, PartialEq)]
pub enum CameraCommand {
    Pan { dx: i64, dy: i64, workspace: Option<String>, output: Option<String> },
}

fn borrowed(text: &Option<String>) -> (r: Option<&str>)
    ensures
        optional(r) == text::characters(*text),
{
    match text {
        Some(text) => Some(text.as_str()),
        None => None,
    }
}

pub open spec fn usage<T>(result: Result<T, Seq<char>>) -> Result<T, FailureView> {
    match result {
        Ok(value) => Ok(value),
        Err(message) => Err(FailureView::Usage(message)),
    }
}

impl WorkspaceCommand {
    /// The command that the server is sent.
    pub open spec fn meant(self, snapshot: v1::SnapshotView) -> Result<
        v1::CommandView,
        Seq<char>,
    > {
        match self {
            WorkspaceCommand::Focus { workspace, output } => match meant_workspace(
                workspace@,
                text::characters(output),
            ) {
                Ok(workspace) => Ok(v1::CommandView::FocusWorkspace { workspace }),
                Err(message) => Err(message),
            },
            WorkspaceCommand::Rename { workspace, name, output } => match snapshot.workspace_meant(
                workspace@,
                text::characters(output),
            ) {
                Ok(workspace) => Ok(
                    v1::CommandView::SetWorkspaceName { workspace, name: Some(name@) },
                ),
                Err(message) => Err(message),
            },
            WorkspaceCommand::ClearName { workspace, output } => match snapshot.workspace_meant(
                workspace@,
                text::characters(output),
            ) {
                Ok(workspace) => Ok(v1::CommandView::SetWorkspaceName { workspace, name: None }),
                Err(message) => Err(message),
            },
            WorkspaceCommand::Move { workspace, output, index, activate } =>
                match snapshot.workspace_meant(workspace@, None) {
                    Err(message) => Err(message),
                    Ok(workspace) => match meant_output(Some(output@)) {
                        Err(message) => Err(message),
                        Ok(target_output) => Ok(
                            v1::CommandView::MoveWorkspace {
                                workspace,
                                target_output,
                                target_index: index,
                                activate,
                            },
                        ),
                    },
                },
        }
    }

    /// Whether the state must be known first.
    pub fn needs_snapshot(&self) -> (r: bool)
        ensures
            r == !(*self is Focus),
    {
        match self {
            WorkspaceCommand::Focus { .. } => false,
            _ => true,
        }
    }
}

/// The command that the server is sent.
pub fn workspace_command(command: WorkspaceCommand, snapshot: &DesktopSnapshot) -> (r: Result<
    Command,
    Failure,
>)
    ensures
        match usage(command.meant(snapshot@)) {
            Ok(sent) => r is Ok && r->Ok_0@ == sent,
            Err(failure) => r is Err && r->Err_0@ == failure,
        },
{
    match command {
        WorkspaceCommand::Focus { workspace, output } => match parse_workspace(
            workspace.as_str(),
            borrowed(&output),
        ) {
            Ok(workspace) => Ok(Command::FocusWorkspace { workspace }),
            Err(message) => Err(Failure::Usage(message)),
        },
        WorkspaceCommand::Rename { workspace, name, output } => match resolve_workspace_id(
            snapshot,
            workspace.as_str(),
            borrowed(&output),
        ) {
            Ok(workspace) => Ok(Command::SetWorkspaceName { workspace, name: Some(name) }),
            Err(message) => Err(Failure::Usage(message)),
        },
        WorkspaceCommand::ClearName { workspace, output } => match resolve_workspace_id(
            snapshot,
            workspace.as_str(),
            borrowed(&output),
        ) {
            Ok(workspace) => Ok(Command::SetWorkspaceName { workspace, name: None }),
            Err(message) => Err(Failure::Usage(message)),
        },
        WorkspaceCommand::Move { workspace, output, index, activate } => {
            let workspace: v1::WorkspaceId = match resolve_workspace_id(
                snapshot,
                workspace.as_str(),
                None,
            ) {
                Ok(workspace) => workspace,
                Err(message) => {
                    return Err(Failure::Usage(message));
                },
            };
            match parse_output(Some(output.as_str())) {
                Ok(target_output) => Ok(
                    Command::MoveWorkspace {
                        workspace,
                        target_output,
                        target_index: index,
                        activate,
                    },
                ),
                Err(message) => Err(Failure::Usage(message)),
            }
        },
    }
}

/// The window that is meant: the one that is named, or the focused one.
pub open spec fn meant_window(window: Option<u64>, snapshot: v1::SnapshotView) -> Result<
    v1::WindowId,
    Seq<char>,
> {
    match window {
        Some(window) => Ok(v1::WindowId(window)),
        None => match snapshot.focused_window {
            Some(window) => Ok(window),
            None => Err("there is no focused window"@),
        },
    }
}

/// The window that is meant: the one that is named, or the focused one.
pub fn resolve_window(window: Option<u64>, snapshot: &DesktopSnapshot) -> (r: Result<
    v1::WindowId,
    Failure,
>)
    ensures
        match usage(meant_window(window, snapshot@)) {
            Ok(id) => r == Ok::<v1::WindowId, Failure>(id),
            Err(failure) => r is Err && r->Err_0@ == failure,
        },
{
    match window {
        Some(window) => Ok(v1::WindowId(window)),
        None => match snapshot.focused_window {
            Some(window) => Ok(window),
            None => Err(Failure::Usage("there is no focused window".to_owned())),
        },
    }
}

impl WindowCommand {
    /// The command that the server is sent.
    pub open spec fn meant(self, snapshot: v1::SnapshotView) -> Result<
        v1::CommandView,
        Seq<char>,
    > {
        match self {
            WindowCommand::Focus { direction } => Ok(
                v1::CommandView::FocusDirection(direction_of(direction)),
            ),
            WindowCommand::Activate { window } => Ok(
                v1::CommandView::FocusWindow(v1::WindowId(window)),
            ),
            WindowCommand::Close { window } => match meant_window(window, snapshot) {
                Ok(window) => Ok(v1::CommandView::CloseWindow(window)),
                Err(message) => Err(message),
            },
            WindowCommand::Mode { mode, window } => match meant_window(window, snapshot) {
                Ok(window) => Ok(v1::CommandView::SetWindowMode { window, mode }),
                Err(message) => Err(message),
            },
            WindowCommand::Move { workspace, window, output, activate } => match meant_window(
                window,
                snapshot,
            ) {
                Err(message) => Err(message),
                Ok(window) => match meant_workspace(workspace@, text::characters(output)) {
                    Err(message) => Err(message),
                    Ok(target) => Ok(v1::CommandView::MoveWindow { window, target, activate }),
                },
            },
        }
    }

    /// Whether the state must be known first.
    pub fn needs_snapshot(&self) -> (r: bool)
        ensures
            r == match *self {
                WindowCommand::Focus { .. } => false,
                WindowCommand::Activate { .. } => false,
                WindowCommand::Close { window } => window is None,
                WindowCommand::Mode { window, .. } => window is None,
                WindowCommand::Move { window, .. } => window is None,
            },
    {
        match self {
            WindowCommand::Focus { .. } => false,
            WindowCommand::Activate { .. } => false,
            WindowCommand::Close { window } => window.is_none(),
            WindowCommand::Mode { window, .. } => window.is_none(),
            WindowCommand::Move { window, .. } => window.is_none(),
        }
    }
}

/// The command that the server is sent.
pub fn window_command(command: WindowCommand, snapshot: &DesktopSnapshot) -> (r: Result<
    Command,
    Failure,
>)
    ensures
        match usage(command.meant(snapshot@)) {
            Ok(sent) => r is Ok && r->Ok_0@ == sent,
            Err(failure) => r is Err && r->Err_0@ == failure,
        },
{
    match command {
        WindowCommand::Focus { direction } => Ok(
            Command::FocusDirection(direction_value(direction)),
        ),
        WindowCommand::Activate { window } => Ok(Command::FocusWindow(v1::WindowId(window))),
        WindowCommand::Close { window } => match resolve_window(window, snapshot) {
            Ok(window) => Ok(Command::CloseWindow(window)),
            Err(failure) => Err(failure),
        },
        WindowCommand::Mode { mode, window } => match resolve_window(window, snapshot) {
            Ok(window) => Ok(Command::SetWindowMode { window, mode }),
            Err(failure) => Err(failure),
        },
        WindowCommand::Move { workspace, window, output, activate } => {
            let window: v1::WindowId = match resolve_window(window, snapshot) {
                Ok(window) => window,
                Err(failure) => {
                    return Err(failure);
                },
            };
            match parse_workspace(workspace.as_str(), borrowed(&output)) {
                Ok(target) => Ok(Command::MoveWindow { window, target, activate }),
                Err(message) => Err(Failure::Usage(message)),
            }
        },
    }
}

impl CameraCommand {
    /// The command that the server is sent.
    pub open spec fn meant(self, snapshot: v1::SnapshotView) -> Result<
        v1::CommandView,
        Seq<char>,
    > {
        match self {
            CameraCommand::Pan { dx, dy, workspace, output } => {
                let workspace = match workspace {
                    Some(selector) => snapshot.workspace_meant(
                        selector@,
                        text::characters(output),
                    ),
                    None => match snapshot.active_workspace() {
                        Some(id) => Ok(id),
                        None => Err("active output has no workspace"@),
                    },
                };
                match workspace {
                    Ok(workspace) => Ok(v1::CommandView::PanCamera { workspace, dx, dy }),
                    Err(message) => Err(message),
                }
            },
        }
    }
}

/// The command that the server is sent.
pub fn camera_command(command: CameraCommand, snapshot: &DesktopSnapshot) -> (r: Result<
    Command,
    Failure,
>)
    ensures
        match usage(command.meant(snapshot@)) {
            Ok(sent) => r is Ok && r->Ok_0@ == sent,
            Err(failure) => r is Err && r->Err_0@ == failure,
        },
{
    match command {
        CameraCommand::Pan { dx, dy, workspace, output } => {
            let workspace: v1::WorkspaceId = match workspace {
                Some(selector) => match resolve_workspace_id(
                    snapshot,
                    selector.as_str(),
                    borrowed(&output),
                ) {
                    Ok(workspace) => workspace,
                    Err(message) => {
                        return Err(Failure::Usage(message));
                    },
                },
                None => match active_workspace(snapshot) {
                    Some(workspace) => workspace,
                    None => {
                        return Err(
                            Failure::Usage("active output has no workspace".to_owned()),
                        );
                    },
                },
            };
            Ok(Command::PanCamera { workspace, dx, dy })
        },
    }
}

} // verus!
