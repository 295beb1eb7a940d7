//! The four sub-protocols a connection passes through.

use vstd::prelude::*;

verus! {

/// The sub-protocol in force on a connection; it decides what each packet
/// id means.
#[derive(Debug, Clone, Copy, PartialEq, Eq, Structural)]
pub enum Protocol {
    Handshake,
    Play,
    Status,
    Login,
}

/// The protocol that a wire value names: `0` Play, `1` Status, `2` Login.
pub open spec fn protocol_of_int(value: i32) -> Option<Protocol> {
    if value == 0 {
        Some(Protocol::Play)
    } else if value == 1 {
        Some(Protocol::Status)
    } else if value == 2 {
        Some(Protocol::Login)
    } else {
        None
    }
}

/// The wire value of a protocol other than `Handshake`, which has none.
pub open spec fn protocol_wire_value(p: Protocol) -> i32 {
    match p {
        Protocol::Play => 0,
        Protocol::Status => 1,
        Protocol::Login => 2,
        Protocol::Handshake => -1i32,
    }
}

impl Protocol {
    pub fn from_int(value: i32) -> (r: Option<Protocol>)
        ensures
            r == protocol_of_int(value),
    {
        match value {
            0 => Some(Protocol::Play),
            1 => Some(Protocol::Status),
            2 => Some(Protocol::Login),
            _ => None,
        }
    }

    /// The wire value; `Handshake` is never sent as a value.
    pub fn to_int(&self) -> (r: i32)
        requires
            *self != Protocol::Handshake,
        ensures
            r == protocol_wire_value(*self),
            protocol_of_int(r) == Some(*self),
    {
        match self {
            Protocol::Play => 0,
            Protocol::Status => 1,
            Protocol::Login => 2,
            Protocol::Handshake => -1,
        }
    }
}

} // verus!
