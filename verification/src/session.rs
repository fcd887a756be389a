//! The course of one connection: one read, the response, a fixed pause, and
//! the end. The handler performs what a step asks for and reports what
//! came of it; the decisions are taken here.

use crate::handshake::{carries_token, handshake_outcome, handshake_response, HandshakeError};
use crate::server::{HOLD_OPEN_MILLIS, READ_BUFFER_LEN};
use vstd::prelude::*;

verus! {

/// Where a connection stands.
#[derive(Debug, Clone, Copy, PartialEq, Eq, Structural)]
pub enum SessionState {
    /// The request has not been read yet.
    AwaitingRequest,
    /// The response is being written.
    Responding,
    /// The response is out and the connection is held open.
    HandshakeOnly,
    /// The connection is done with.
    Closed,
}

/// What the handler reports of the action it was asked for.
#[derive(Debug)]
pub enum SessionEvent {
    /// The one read gave these bytes.
    RequestRead(Vec<u8>),
    /// The read failed.
    ReadFailed,
    /// The response was written.
    ResponseWritten,
    /// The write failed.
    WriteFailed,
    /// The pause is over.
    HoldElapsed,
}

/// What the handler is asked to do next.
#[derive(Debug)]
pub enum SessionAction {
    /// Read once, at most this many bytes.
    Read(usize),
    /// Write this response.
    Write(String),
    /// Keep the connection open for this many milliseconds.
    Hold(u64),
    /// Close the connection.
    Close,
}

/// Whether a connection in `state` goes on after `event`: a request that
/// was read and can be answered, a response that was written, and nothing
/// else.
pub open spec fn goes_on(state: SessionState, event: SessionEvent) -> bool {
    match (state, event) {
        (SessionState::AwaitingRequest, SessionEvent::RequestRead(request)) => handshake_outcome(
            request@,
        ) is Ok,
        (SessionState::Responding, SessionEvent::ResponseWritten) => true,
        _ => false,
    }
}

/// The state that follows `state` on `event`.
pub open spec fn next_state(state: SessionState, event: SessionEvent) -> SessionState {
    if !goes_on(state, event) {
        SessionState::Closed
    } else if state == SessionState::AwaitingRequest {
        SessionState::Responding
    } else {
        SessionState::HandshakeOnly
    }
}

/// Whether `action` is what a connection that has come to `next` from
/// `event` asks for: the response to the request that was read, the fixed
/// pause, or the end.
pub open spec fn asks_for(next: SessionState, event: SessionEvent, action: SessionAction) -> bool {
    match next {
        SessionState::AwaitingRequest => false,
        SessionState::Responding => {
            &&& event matches SessionEvent::RequestRead(request)
            &&& action matches SessionAction::Write(response)
            &&& handshake_outcome(request@) == Ok::<Seq<char>, HandshakeError>(response@)
            &&& carries_token(response@)
        },
        SessionState::HandshakeOnly => action matches SessionAction::Hold(millis) && millis
            == HOLD_OPEN_MILLIS,
        SessionState::Closed => action is Close,
    }
}

/// Opens a connection's course: nothing has been read, and the handler is
/// asked for its one read.
pub fn open_session() -> (begin: (SessionState, SessionAction))
    ensures
        begin.0 == SessionState::AwaitingRequest,
        begin.1 matches SessionAction::Read(limit) && limit == READ_BUFFER_LEN,
{
    (SessionState::AwaitingRequest, SessionAction::Read(READ_BUFFER_LEN))
}

/// Takes a connection one step on. A request that was read is answered,
/// a response that was written is followed by the pause, and everything
/// else ends the connection: a failed read or write, a request that cannot
/// be answered, the end of the pause, and any report that the state did
/// not ask for.
pub fn step(state: SessionState, event: SessionEvent) -> (then: (SessionState, SessionAction))
    ensures
        then.0 == next_state(state, event),
        asks_for(then.0, event, then.1),
{
    match state {
        SessionState::AwaitingRequest => match event {
            SessionEvent::RequestRead(request) => match handshake_response(request.as_slice()) {
                Ok(response) => (SessionState::Responding, SessionAction::Write(response)),
                Err(_) => (SessionState::Closed, SessionAction::Close),
            },
            _ => (SessionState::Closed, SessionAction::Close),
        },
        SessionState::Responding => match event {
            SessionEvent::ResponseWritten => (
                SessionState::HandshakeOnly,
                SessionAction::Hold(HOLD_OPEN_MILLIS),
            ),
            _ => (SessionState::Closed, SessionAction::Close),
        },
        _ => (SessionState::Closed, SessionAction::Close),
    }
}

/// A closed connection stays closed, and a connection is closed after
/// three reports at the latest, whatever they are.
pub proof fn lemma_session_ends(
    state: SessionState,
    first: SessionEvent,
    second: SessionEvent,
    third: SessionEvent,
)
    ensures
        next_state(SessionState::Closed, first) == SessionState::Closed,
        next_state(next_state(next_state(state, first), second), third) == SessionState::Closed,
{
}

} // verus!
