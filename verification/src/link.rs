//! The fixed points of the link to the device.

use vstd::prelude::*;

verus! {

/// The text that is sent to the device once, when the session starts, to
/// make the client known. No answer is awaited.
pub const HANDSHAKE: &'static str = "connect me plz";

/// The local port that commands are sent from.
pub const OUTBOUND_PORT: u16 = 20002;

/// The local port that the receiver listens on, a socket of its own.
pub const INBOUND_PORT: u16 = 20003;

} // verus!
