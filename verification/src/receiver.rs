//! The decisions of the task that listens for datagrams from the device.
//!
//! The task itself, its socket and its channel belong to the program. It
//! hands each thing that happens to the functions here and does what they
//! answer.

use vstd::prelude::*;
use vstd::utf8::{decode_utf8, valid_utf8};
use crate::text::text_of;

verus! {

/// What a wait on the socket ended with.
#[derive(Debug, PartialEq, Eq)]
pub enum Arrival {
    /// A datagram with this payload.
    Datagram(Vec<u8>),
    /// An error of the socket.
    Failure,
}

/// What the task does next.
#[derive(Debug, PartialEq, Eq)]
pub enum Step {
    /// Hand this text to the control loop, then tell `on_forward` how it
    /// went.
    Forward(String),
    /// Wait for the next datagram.
    Listen,
    /// End the task quietly: it was told to shut down.
    Finish,
    /// End the task as failed: the socket or the channel is of no use any
    /// more, and nothing restarts the task.
    Fail,
}

/// The text that a payload carries: its characters where it is well-formed
/// UTF-8, nothing otherwise.
pub open spec fn text_in(payload: Seq<u8>) -> Option<Seq<char>> {
    if valid_utf8(payload) {
        Some(decode_utf8(payload))
    } else {
        None
    }
}

/// What the task does after a wait: it finishes where it was told to shut
/// down, whatever arrived; it fails where the socket failed; it forwards
/// the text of a payload that carries text, and drops any other payload
/// without a word.
pub open spec fn reaction(arrival: Arrival, cancelled: bool, step: Step) -> bool {
    if cancelled {
        step is Finish
    } else {
        match arrival {
            Arrival::Failure => step is Fail,
            Arrival::Datagram(payload) => match text_in(payload@) {
                Some(text) => step matches Step::Forward(forwarded) && forwarded@ == text,
                None => step is Listen,
            },
        }
    }
}

/// Reads the payload of a datagram as text.
pub fn decode_datagram(payload: Vec<u8>) -> (text: Option<String>)
    ensures
        text is Some == text_in(payload@) is Some,
        text matches Some(t) ==> Some(t@) == text_in(payload@),
{
    text_of(payload)
}

/// Decides what follows a wait on the socket. `cancelled` tells whether
/// the task was told to shut down while it waited.
pub fn on_arrival(arrival: Arrival, cancelled: bool) -> (step: Step)
    ensures
        reaction(arrival, cancelled, step),
{
    if cancelled {
        return Step::Finish;
    }
    match arrival {
        Arrival::Failure => Step::Fail,
        Arrival::Datagram(payload) => match decode_datagram(payload) {
            Some(text) => Step::Forward(text),
            None => Step::Listen,
        },
    }
}

/// Decides what follows a forward: the task goes on listening where the
/// text was delivered, and fails where the control loop is gone.
pub fn on_forward(delivered: bool) -> (step: Step)
    ensures
        delivered ==> step is Listen,
        !delivered ==> step is Fail,
{
    if delivered {
        Step::Listen
    } else {
        Step::Fail
    }
}

} // verus!
