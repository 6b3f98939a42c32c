//! Which files a server may touch where its socket goes.
//!
//! The files themselves are outside: what they are comes in as plain values.

use vstd::prelude::*;

verus! {

/// What tells one file from another.
#[derive(Clone, Copy, Debug, Eq, PartialEq, Structural)]
pub struct SocketIdentity {
    pub device: u64,
    pub inode: u64,
}

/// What is found under a path, links not followed.
#[derive(Clone, Copy, Debug, Eq, PartialEq, Structural)]
pub enum Found {
    Nothing,
    Socket(SocketIdentity),
    Directory,
    /// A link, or anything else.
    Other,
}

/// What came of an attempt to connect to a socket.
#[derive(Clone, Copy, Debug, Eq, PartialEq, Structural)]
pub enum Probe {
    Connected,
    Refused,
    Failed,
}

/// What to do about a file that is where the socket goes.
#[derive(Clone, Copy, Debug, Eq, PartialEq, Structural)]
pub enum StaleStep {
    /// The way is free.
    Done,
    /// It is not ours to touch.
    Unsafe,
    /// Try to connect to it.
    Probe(SocketIdentity),
}

/// What to do about a socket that one tried to connect to.
#[derive(Clone, Copy, Debug, Eq, PartialEq, Structural)]
pub enum ProbeStep {
    /// Another server uses it.
    InUse,
    /// Nobody uses it: remove it, if it is still the same.
    Remove(SocketIdentity),
    Failed,
}

/// What to do about the directory that the socket goes to.
#[derive(Clone, Copy, Debug, Eq, PartialEq, Structural)]
pub enum DirectoryStep {
    Create,
    /// It is there; only its owner is to have access.
    Restrict,
    Unsafe,
}

pub open spec fn stale(found: Found) -> StaleStep {
    match found {
        Found::Nothing => StaleStep::Done,
        Found::Socket(identity) => StaleStep::Probe(identity),
        _ => StaleStep::Unsafe,
    }
}

/// What to do about a file that is where the socket goes: only sockets are looked at further.
pub fn stale_step(found: Found) -> (r: StaleStep)
    ensures
        r == stale(found),
{
    match found {
        Found::Nothing => StaleStep::Done,
        Found::Socket(identity) => StaleStep::Probe(identity),
        _ => StaleStep::Unsafe,
    }
}

pub open spec fn probed(probe: Probe, identity: SocketIdentity) -> ProbeStep {
    match probe {
        Probe::Connected => ProbeStep::InUse,
        Probe::Refused => ProbeStep::Remove(identity),
        Probe::Failed => ProbeStep::Failed,
    }
}

/// What to do about a socket that one tried to connect to: one that nobody answers on is stale.
pub fn probe_step(probe: Probe, identity: SocketIdentity) -> (r: ProbeStep)
    ensures
        r == probed(probe, identity),
{
    match probe {
        Probe::Connected => ProbeStep::InUse,
        Probe::Refused => ProbeStep::Remove(identity),
        Probe::Failed => ProbeStep::Failed,
    }
}

/// Whether a file may be removed: only the very socket that was meant.
pub fn may_remove(found: Found, expected: SocketIdentity) -> (r: bool)
    ensures
        r == (found == Found::Socket(expected)),
{
    match found {
        Found::Socket(identity) => identity == expected,
        _ => false,
    }
}

pub open spec fn directory(found: Found) -> DirectoryStep {
    match found {
        Found::Nothing => DirectoryStep::Create,
        Found::Directory => DirectoryStep::Restrict,
        _ => DirectoryStep::Unsafe,
    }
}

/// What to do about the directory that the socket goes to.
pub fn directory_step(found: Found) -> (r: DirectoryStep)
    ensures
        r == directory(found),
{
    match found {
        Found::Nothing => DirectoryStep::Create,
        Found::Directory => DirectoryStep::Restrict,
        _ => DirectoryStep::Unsafe,
    }
}

/// Nothing but a socket that nobody answers on is ever removed to make room.
pub proof fn only_stale_sockets_are_removed(found: Found, probe: Probe, identity: SocketIdentity)
    ensures
        stale(found) == StaleStep::Probe(identity) ==> found == Found::Socket(identity),
        probed(probe, identity) is Remove ==> probe == Probe::Refused && probed(probe, identity)
            == ProbeStep::Remove(identity),
{
}

/// Why there is no socket to listen on.
#[derive(Debug, Eq, PartialEq)]
pub enum IpcServerError {
    MissingRuntimeDirectory,
    /// Another server uses the path.
    AddressInUse(String),
    /// What is under the path is not ours to touch.
    UnsafePath(String),
    /// Something could not be done to the path.
    Socket { operation: String, path: String },
}

impl IpcServerError {
    pub open spec fn text(self) -> Seq<char> {
        match self {
            IpcServerError::MissingRuntimeDirectory =>
                "XDG_RUNTIME_DIR is required for the IPC socket"@,
            IpcServerError::AddressInUse(path) => "IPC socket "@ + path@ + " is already active"@,
            IpcServerError::UnsafePath(path) => "refusing unsafe IPC path "@ + path@,
            IpcServerError::Socket { operation, path } => "could not "@ + operation@
                + " IPC socket "@ + path@,
        }
    }

    pub fn message(&self) -> (r: String)
        ensures
            r@ == self.text(),
    {
        match self {
            IpcServerError::MissingRuntimeDirectory => {
                "XDG_RUNTIME_DIR is required for the IPC socket".to_owned()
            },
            IpcServerError::AddressInUse(path) => {
                let mut text: String = "IPC socket ".to_owned();
                text.append(path.as_str());
                text.append(" is already active");
                text
            },
            IpcServerError::UnsafePath(path) => {
                let mut text: String = "refusing unsafe IPC path ".to_owned();
                text.append(path.as_str());
                text
            },
            IpcServerError::Socket { operation, path } => {
                let mut text: String = "could not ".to_owned();
                text.append(operation.as_str());
                text.append(" IPC socket ");
                text.append(path.as_str());
                text
            },
        }
    }
}

/// The name of the socket of a display, in the directory for sockets.
pub fn file_name(display: &str) -> (r: String)
    ensures
        r@ == display@ + ".ipc"@,
{
    let mut name: String = display.to_owned();
    name.append(".ipc");
    name
}

} // verus!
