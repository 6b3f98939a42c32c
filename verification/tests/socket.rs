use astera::socket::{
    directory_step, file_name, may_remove, probe_step, stale_step, DirectoryStep, Found,
    IpcServerError, Probe, ProbeStep, SocketIdentity, StaleStep,
};

const OURS: SocketIdentity = SocketIdentity { device: 5, inode: 71 };

#[test]
fn only_a_socket_is_probed() {
    assert_eq!(stale_step(Found::Nothing), StaleStep::Done);
    assert_eq!(stale_step(Found::Socket(OURS)), StaleStep::Probe(OURS));
    assert_eq!(stale_step(Found::Directory), StaleStep::Unsafe);
    assert_eq!(stale_step(Found::Other), StaleStep::Unsafe);
}

#[test]
fn only_a_socket_that_refuses_is_removed() {
    assert_eq!(probe_step(Probe::Connected, OURS), ProbeStep::InUse);
    assert_eq!(probe_step(Probe::Refused, OURS), ProbeStep::Remove(OURS));
    assert_eq!(probe_step(Probe::Failed, OURS), ProbeStep::Failed);
}

#[test]
fn a_socket_that_was_replaced_stays() {
    assert!(may_remove(Found::Socket(OURS), OURS));
    assert!(!may_remove(Found::Socket(SocketIdentity { device: 5, inode: 72 }), OURS));
    assert!(!may_remove(Found::Socket(SocketIdentity { device: 6, inode: 71 }), OURS));
    assert!(!may_remove(Found::Nothing, OURS));
}

#[test]
fn the_directory_is_made_or_restricted() {
    assert_eq!(directory_step(Found::Nothing), DirectoryStep::Create);
    assert_eq!(directory_step(Found::Directory), DirectoryStep::Restrict);
    assert_eq!(directory_step(Found::Socket(OURS)), DirectoryStep::Unsafe);
    assert_eq!(directory_step(Found::Other), DirectoryStep::Unsafe);
}

#[test]
fn socket_errors_say_what_is_wrong() {
    let path = || "/run/astera/x.ipc".to_owned();
    assert_eq!(
        IpcServerError::MissingRuntimeDirectory.message(),
        "XDG_RUNTIME_DIR is required for the IPC socket"
    );
    assert_eq!(
        IpcServerError::AddressInUse(path()).message(),
        "IPC socket /run/astera/x.ipc is already active"
    );
    assert_eq!(
        IpcServerError::UnsafePath(path()).message(),
        "refusing unsafe IPC path /run/astera/x.ipc"
    );
    assert_eq!(
        IpcServerError::Socket { operation: "bind".to_owned(), path: path() }.message(),
        "could not bind IPC socket /run/astera/x.ipc"
    );
    assert_eq!(file_name("astera-1"), "astera-1.ipc");
}
