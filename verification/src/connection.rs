//! The life of one connection: an optional TLS handshake, one read, one
//! request resolved through the router, one write, an optional entry in the
//! access log, and the end.
//!
//! The socket is read and written elsewhere. What is done next, and with
//! which bytes, is decided here, from the state of the connection and the
//! event that came.

use crate::handler::Handler;
use crate::logger::{access_log_entry, access_log_text};
use crate::middleware::Middleware;
use crate::request::{parsed_request, Request};
use crate::response::{response_text, ResponseView};
use crate::router::{resolves, Router, RouterView};
use crate::server::Transport;
use crate::text::utf8_lossy_of;
use vstd::prelude::*;
use vstd::string::*;

verus! {

/// The size of the buffer of the one read of a connection. A request that is
/// longer is parsed from its first bytes.
pub const READ_BUFFER_SIZE: usize = 8192;

/// The state of a connection.
#[derive(Debug)]
pub enum ConnectionState {
    /// The TLS handshake is under way.
    Handshaking,
    /// The one read is under way.
    Reading,
    /// The response is being written. The entry for the access log waits
    /// until the write is over, where there is a log.
    Responding { entry: Option<String> },
    /// The entry is being written to the access log.
    Logging,
    /// The connection is over.
    Closed,
}

/// What happened on a connection.
#[derive(Debug)]
pub enum ConnectionEvent {
    /// The TLS handshake succeeded.
    HandshakeCompleted,
    /// The TLS handshake failed.
    HandshakeFailed,
    /// The read returned these bytes.
    ReadCompleted(Vec<u8>),
    /// The read failed.
    ReadFailed,
    /// The write is over, whether it succeeded or not.
    WriteFinished,
    /// The access log took the entry, or failed to.
    LogFinished,
}

/// What is done next on a connection.
#[derive(Debug)]
pub enum ConnectionAction {
    /// Perform the TLS handshake.
    Handshake,
    /// Read once, at most that many bytes.
    Read(usize),
    /// Write these bytes.
    Write(Vec<u8>),
    /// Hand this entry to the access log.
    Log(String),
    /// Close the connection.
    Close,
}

/// The state and the action with which a connection starts.
pub open spec fn connection_start(transport: Transport) -> (ConnectionState, ConnectionAction) {
    match transport {
        Transport::Tls => (ConnectionState::Handshaking, ConnectionAction::Handshake),
        Transport::Plain => (ConnectionState::Reading, ConnectionAction::Read(READ_BUFFER_SIZE)),
    }
}

/// Whether a state and an action answer the bytes that were read: the bytes
/// are parsed as a request, `res` is a response of the router to it, the
/// action writes `res` in its wire form, and the state holds the entry for
/// the access log exactly where there is a log.
pub open spec fn answers<H: Handler, M: Middleware>(
    router: RouterView<H, M>,
    client_addr: Seq<char>,
    logging: bool,
    bytes: Seq<u8>,
    res: ResponseView,
    date: Seq<char>,
    next: ConnectionState,
    action: ConnectionAction,
) -> bool {
    let req = parsed_request(utf8_lossy_of(bytes));
    let size = vstd::utf8::encode_utf8(res.body).len();
    &&& resolves(router, req, res)
    &&& action matches ConnectionAction::Write(out) && out@ == vstd::utf8::encode_utf8(
        response_text(res, date),
    )
    &&& next matches ConnectionState::Responding { entry } && match entry {
        Some(line) => logging && line@ == access_log_text(client_addr, req, res.status_code, size),
        None => !logging,
    }
}

/// Whether a connection in `state` on which `event` happened goes on in
/// `next` with `action`.
///
/// After the handshake comes the read. The bytes that were read are answered
/// through the router. After the write comes the entry in the access log,
/// where there is one, and then the end. A failed handshake or read, or an
/// event that the state does not wait for, ends the connection.
pub open spec fn connection_step<H: Handler, M: Middleware>(
    router: RouterView<H, M>,
    client_addr: Seq<char>,
    logging: bool,
    state: ConnectionState,
    event: ConnectionEvent,
    next: ConnectionState,
    action: ConnectionAction,
) -> bool {
    match (state, event) {
        (ConnectionState::Handshaking, ConnectionEvent::HandshakeCompleted) => next
            == ConnectionState::Reading && action == ConnectionAction::Read(READ_BUFFER_SIZE),
        (ConnectionState::Reading, ConnectionEvent::ReadCompleted(bytes)) => exists|
            res: ResponseView,
            date: Seq<char>,
        | #[trigger] answers(router, client_addr, logging, bytes@, res, date, next, action),
        (ConnectionState::Responding { entry: Some(line) }, ConnectionEvent::WriteFinished) => next
            == ConnectionState::Logging && action == ConnectionAction::Log(line),
        _ => next == ConnectionState::Closed && action == ConnectionAction::Close,
    }
}

/// Starts a connection: with the handshake where the transport is TLS, with
/// the read where it is not.
pub fn start(transport: Transport) -> (out: (ConnectionState, ConnectionAction))
    ensures
        out == connection_start(transport),
{
    match transport {
        Transport::Tls => (ConnectionState::Handshaking, ConnectionAction::Handshake),
        Transport::Plain => (ConnectionState::Reading, ConnectionAction::Read(READ_BUFFER_SIZE)),
    }
}

/// Answers the bytes that were read from a connection.
pub fn respond<H: Handler, M: Middleware>(
    router: &Router<H, M>,
    client_addr: &str,
    logging: bool,
    bytes: &[u8],
) -> (out: (ConnectionState, ConnectionAction))
    ensures
        exists|res: ResponseView, date: Seq<char>| #[trigger]
            answers(router@, client_addr@, logging, bytes@, res, date, out.0, out.1),
{
    let request = Request::from_buffer(bytes).unwrap();
    let response = router.handle_request(request.clone());
    let written = response.to_bytes();
    let size = response.body.as_str().as_bytes().len();
    let entry = if logging {
        Some(access_log_entry(client_addr, &request, response.status_code, size))
    } else {
        None
    };
    let out = (ConnectionState::Responding { entry }, ConnectionAction::Write(written));
    proof {
        let date = choose|date: Seq<char>|
            written@ == vstd::utf8::encode_utf8(#[trigger] response_text(response@, date));
        assert(answers(router@, client_addr@, logging, bytes@, response@, date, out.0, out.1));
    }
    out
}

/// Decides what follows from an event on a connection.
pub fn step<H: Handler, M: Middleware>(
    state: ConnectionState,
    event: ConnectionEvent,
    router: &Router<H, M>,
    client_addr: &str,
    logging: bool,
) -> (out: (ConnectionState, ConnectionAction))
    ensures
        connection_step(router@, client_addr@, logging, state, event, out.0, out.1),
{
    match state {
        ConnectionState::Handshaking => match event {
            ConnectionEvent::HandshakeCompleted => (
                ConnectionState::Reading,
                ConnectionAction::Read(READ_BUFFER_SIZE),
            ),
            _ => (ConnectionState::Closed, ConnectionAction::Close),
        },
        ConnectionState::Reading => match event {
            ConnectionEvent::ReadCompleted(bytes) => respond(
                router,
                client_addr,
                logging,
                bytes.as_slice(),
            ),
            _ => (ConnectionState::Closed, ConnectionAction::Close),
        },
        ConnectionState::Responding { entry } => match event {
            ConnectionEvent::WriteFinished => match entry {
                Some(line) => (ConnectionState::Logging, ConnectionAction::Log(line)),
                None => (ConnectionState::Closed, ConnectionAction::Close),
            },
            _ => (ConnectionState::Closed, ConnectionAction::Close),
        },
        ConnectionState::Logging => (ConnectionState::Closed, ConnectionAction::Close),
        ConnectionState::Closed => (ConnectionState::Closed, ConnectionAction::Close),
    }
}

/// How many steps a connection in that state has before it at most.
pub open spec fn steps_left(state: ConnectionState) -> nat {
    match state {
        ConnectionState::Handshaking => 4,
        ConnectionState::Reading => 3,
        ConnectionState::Responding { .. } => 2,
        ConnectionState::Logging => 1,
        ConnectionState::Closed => 0,
    }
}

/// A connection serves one exchange and ends. Every step brings it nearer to
/// its end, so that it is over after four steps at most; it is asked to close
/// exactly when it is over; and it reads only after the handshake and writes
/// only after the read, so that it reads once and writes once at most.
pub proof fn lemma_connection_ends<H: Handler, M: Middleware>(
    router: RouterView<H, M>,
    client_addr: Seq<char>,
    logging: bool,
    state: ConnectionState,
    event: ConnectionEvent,
    next: ConnectionState,
    action: ConnectionAction,
)
    requires
        connection_step(router, client_addr, logging, state, event, next, action),
    ensures
        steps_left(next) < steps_left(state) || (state is Closed && next is Closed),
        next is Closed <==> action is Close,
        !(action is Handshake),
        action is Read ==> state is Handshaking && next is Reading,
        action is Write ==> state is Reading && next is Responding,
        action is Log ==> state is Responding && next is Logging,
{
}

} // verus!
