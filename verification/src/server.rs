//! The decisions of the accept loop.
//!
//! The loop itself waits for the next connection and for the shutdown signal;
//! what follows from either is decided here.

use vstd::prelude::*;

verus! {

/// How the connections of a server are carried.
#[derive(Debug, Clone, Copy, PartialEq, Eq, Structural)]
pub enum Transport {
    /// The bytes go over the socket as they are.
    Plain,
    /// A TLS handshake comes before any other byte is read.
    Tls,
}

/// The state of the accept loop.
#[derive(Debug, Clone, Copy, PartialEq, Eq, Structural)]
pub enum ServerState {
    /// The loop takes connections.
    Listening,
    /// Shutdown was asked for: the loop takes no connection any more.
    Stopped,
}

/// What the accept loop waits for.
#[derive(Debug, Clone, Copy, PartialEq, Eq, Structural)]
pub enum ServerEvent {
    /// A connection was accepted.
    Accepted,
    /// The shutdown signal came.
    ShutdownRequested,
}

/// What the accept loop does next.
#[derive(Debug, Clone, Copy, PartialEq, Eq, Structural)]
pub enum ServerAction {
    /// Serve the accepted connection as a unit of its own, and go on.
    Serve(Transport),
    /// Drop the accepted connection, if there is one, and leave the loop.
    Stop,
}

/// The state and the action that follow from an event. While the loop
/// listens, an accepted connection is served over the transport of the server
/// and the loop goes on; the shutdown signal stops it. Once stopped it stays
/// stopped, and connections in flight are neither tracked nor awaited.
pub open spec fn server_step(state: ServerState, event: ServerEvent, transport: Transport) -> (
    ServerState,
    ServerAction,
) {
    match (state, event) {
        (ServerState::Listening, ServerEvent::Accepted) => (
            ServerState::Listening,
            ServerAction::Serve(transport),
        ),
        _ => (ServerState::Stopped, ServerAction::Stop),
    }
}

/// Decides what follows from an event of the accept loop.
pub fn on_event(state: ServerState, event: ServerEvent, transport: Transport) -> (out: (
    ServerState,
    ServerAction,
))
    ensures
        out == server_step(state, event, transport),
{
    match state {
        ServerState::Listening => match event {
            ServerEvent::Accepted => (ServerState::Listening, ServerAction::Serve(transport)),
            ServerEvent::ShutdownRequested => (ServerState::Stopped, ServerAction::Stop),
        },
        ServerState::Stopped => (ServerState::Stopped, ServerAction::Stop),
    }
}

/// Once shutdown was asked for, no connection is served any more, whatever
/// events follow.
pub proof fn lemma_stopped_stays_stopped(event: ServerEvent, transport: Transport)
    ensures
        server_step(ServerState::Stopped, event, transport) == (
            ServerState::Stopped,
            ServerAction::Stop,
        ),
{
}

} // verus!
