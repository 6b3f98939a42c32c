//! The bootstrap schema: how a client learns which versions are spoken, and what it is told when
//! its own is not. It never changes, so that an unknown version always gets a useful reply.

use vstd::prelude::*;

verus! {

#[derive(Clone, Copy, Debug, Eq, PartialEq, Structural)]
pub enum Request {
    Versions,
}

#[derive(Debug, Eq, PartialEq)]
pub enum Response {
    Versions { minimum: u16, current: u16 },
    UnsupportedVersion { requested: u16, minimum: u16, current: u16 },
    InvalidFrame { message: String },
    InvalidRequest { message: String },
}

} // verus!
