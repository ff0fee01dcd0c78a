//! What a connection does: how a client is greeted, and the action that
//! answers each thing that can happen on a live connection.

use vstd::prelude::*;
use crate::place::State;

verus! {

/// Something that happened on a live connection.
#[derive(Debug, PartialEq, Eq)]
pub enum ConnectionEvent {
    /// The peer sent a binary message.
    Binary(Vec<u8>),
    /// The peer sent a message that is not binary.
    NotBinary,
    /// A frame was offered to the single writer while its queue was full.
    QueueFull,
    /// The broadcast handed this subscriber a frame.
    Published(Vec<u8>),
    /// The broadcast reported that this subscriber fell behind and missed
    /// this many frames.
    Lagged(u64),
    /// The peer closed the connection, the transport failed, or the
    /// broadcast ended.
    Closed,
}

/// What the connection does next.
#[derive(Debug, PartialEq, Eq)]
pub enum ConnectionAction {
    /// Offer these bytes to the single writer without waiting.
    Enqueue(Vec<u8>),
    /// Send these bytes to the peer as one binary message.
    Send(Vec<u8>),
    /// The client's view is stale: greet it again with the cached frames
    /// before any further live frame.
    Resync,
    /// Go on as before.
    Nothing,
    /// End the connection and release its subscription.
    Terminate,
}

/// The messages that a client is greeted with, in the order in which they are
/// sent: the cached full-grid frame, then the cached delta frame.
pub fn greeting(state: &State) -> (frames: Vec<Vec<u8>>)
    ensures
        frames@.len() == 2,
        frames@[0]@ == state@.grid_frame,
        frames@[1]@ == state@.delta_frame,
{
    let mut frames: Vec<Vec<u8>> = Vec::new();
    frames.push(state.get_encoded_grid_data_cloned());
    frames.push(state.get_encoded_delta_data_cloned());
    frames
}

/// The action that answers `event`. A binary message goes to the single
/// writer as it came; any other message, and a frame that a full queue shed,
/// leave the connection undisturbed; a broadcast frame goes to the peer as
/// it came; a lag is answered by a new greeting, never by going on as if
/// nothing was missed; a closed connection ends.
pub fn react(event: ConnectionEvent) -> (action: ConnectionAction)
    ensures
        match event {
            ConnectionEvent::Binary(data) => action == ConnectionAction::Enqueue(data),
            ConnectionEvent::NotBinary => action == ConnectionAction::Nothing,
            ConnectionEvent::QueueFull => action == ConnectionAction::Nothing,
            ConnectionEvent::Published(frame) => action == ConnectionAction::Send(frame),
            ConnectionEvent::Lagged(_) => action == ConnectionAction::Resync,
            ConnectionEvent::Closed => action == ConnectionAction::Terminate,
        },
{
    match event {
        ConnectionEvent::Binary(data) => ConnectionAction::Enqueue(data),
        ConnectionEvent::NotBinary => ConnectionAction::Nothing,
        ConnectionEvent::QueueFull => ConnectionAction::Nothing,
        ConnectionEvent::Published(frame) => ConnectionAction::Send(frame),
        ConnectionEvent::Lagged(_) => ConnectionAction::Resync,
        ConnectionEvent::Closed => ConnectionAction::Terminate,
    }
}

} // verus!
