use vstd::prelude::*;
use crate::connect::{negotiate, negotiate_spec, ConnectError};
use crate::demux::{drain, drain_spec, token_for, Outcome};

verus! {

/// Seconds to wait after any failure before connecting again.
pub const RECONNECT_DELAY_SECS: u64 = 5;

/// The one piece of state carried from one activation of the driver to the
/// next.
pub enum DriverState {
    /// About to open a connection.
    Connecting,
    /// A connection is open; `buffer` holds what arrived and is not yet framed.
    Streaming { buffer: Vec<u8>, boundary: Vec<u8>, is_first_frame: bool },
    /// Waiting before the next connection attempt.
    Sleeping { delay_secs: u64 },
}

impl DriverState {
    /// A streaming state always holds a non-empty boundary.
    pub open spec fn wf(&self) -> bool {
        match self {
            DriverState::Streaming { boundary, .. } => boundary@.len() > 0,
            _ => true,
        }
    }

    /// The state at start-up.
    pub fn new() -> (r: DriverState)
        ensures
            r == DriverState::Connecting,
    {
        DriverState::Connecting
    }
}

/// What the outside world reports back to the driver.
pub enum Input {
    /// The start of an activation, with nothing to report.
    Start,
    /// The connection was answered with this status and content type.
    Opened { status: u16, content_type: Option<Vec<u8>> },
    /// The connection attempt failed before any answer.
    OpenFailed(String),
    /// The next chunk of the byte stream.
    Chunk(Vec<u8>),
    /// Reading the byte stream failed.
    ReadFailed(String),
    /// The byte stream ended.
    Ended,
    /// The reconnect delay is over.
    Woke,
}

/// A status or error the driver reports.
pub enum Notice {
    /// Connected; no frame has come yet.
    Connected,
    /// The delay is over and a new connection follows.
    Reconnecting,
    /// The connection attempt failed.
    ConnectFailed(ConnectError),
    /// Reading the stream failed.
    StreamFailed(String),
    /// The stream ended.
    StreamEnded,
}

/// What an activation hands to the outside world.
pub enum Event {
    /// The payload of one part: an encoded image.
    FrameLoaded(Vec<u8>),
    /// A status or error.
    Status(Notice),
}

/// What the driver asks for next.
pub enum Action {
    /// Open a connection, and report `Opened` or `OpenFailed`.
    Open,
    /// Read the next chunk, and report `Chunk`, `ReadFailed` or `Ended`.
    Read,
    /// Wait this many seconds, and report `Woke`.
    Sleep(u64),
    /// Hand this event out; the activation is over.
    Emit(Event),
}

/// The bytes an optional header value holds.
pub open spec fn opt_vec_view(o: Option<Vec<u8>>) -> Option<Seq<u8>> {
    match o {
        Some(v) => Some(v@),
        None => None,
    }
}

/// The state after a failure: waiting before the next attempt.
pub open spec fn backoff() -> DriverState {
    DriverState::Sleeping { delay_secs: RECONNECT_DELAY_SECS }
}

/// `r` is what one drain of `grown` gives: the streaming state with what the
/// drain left, and the frame it found (after which the first frame is past) or,
/// where it found none, a request for more bytes.
pub open spec fn streamed(
    r: (DriverState, Action),
    grown: Seq<u8>,
    boundary: Seq<u8>,
    is_first_frame: bool,
) -> bool {
    let d = drain_spec(grown, token_for(boundary, is_first_frame));
    match r.0 {
        DriverState::Streaming { buffer: b2, boundary: k2, is_first_frame: f2 } => {
            &&& b2@ == d.1
            &&& k2@ == boundary
            &&& match d.0 {
                Some(payload) => !f2 && match r.1 {
                    Action::Emit(Event::FrameLoaded(v)) => v@ == payload,
                    _ => false,
                },
                None => f2 == is_first_frame && r.1 == Action::Read,
            }
        },
        _ => false,
    }
}

/// One step of the driver: from its state and what the outside world reported,
/// the next state and what to do next.
pub fn step(state: DriverState, input: Input) -> (r: (DriverState, Action))
    requires
        state.wf(),
    ensures
        r.0.wf(),
        match state {
            DriverState::Connecting => match input {
                Input::Opened { status, content_type } => match negotiate_spec(
                    status,
                    opt_vec_view(content_type),
                ) {
                    Ok(b) => match r.0 {
                        DriverState::Streaming { buffer, boundary, is_first_frame } => {
                            &&& buffer@ == Seq::<u8>::empty()
                            &&& boundary@ == b
                            &&& is_first_frame
                            &&& r.1 == Action::Emit(Event::Status(Notice::Connected))
                        },
                        _ => false,
                    },
                    Err(e) => r.0 == backoff() && r.1 == Action::Emit(
                        Event::Status(Notice::ConnectFailed(e)),
                    ),
                },
                Input::OpenFailed(t) => r.0 == backoff() && r.1 == Action::Emit(
                    Event::Status(Notice::ConnectFailed(ConnectError::Transport(t))),
                ),
                _ => r.0 == DriverState::Connecting && r.1 == Action::Open,
            },
            DriverState::Streaming { buffer, boundary, is_first_frame } => match input {
                Input::ReadFailed(t) => r.0 == backoff() && r.1 == Action::Emit(
                    Event::Status(Notice::StreamFailed(t)),
                ),
                Input::Ended => r.0 == backoff() && r.1 == Action::Emit(
                    Event::Status(Notice::StreamEnded),
                ),
                Input::Chunk(c) => streamed(r, buffer@ + c@, boundary@, is_first_frame),
                _ => streamed(r, buffer@, boundary@, is_first_frame),
            },
            DriverState::Sleeping { delay_secs } => match input {
                Input::Woke => r.0 == DriverState::Connecting && r.1 == Action::Emit(
                    Event::Status(Notice::Reconnecting),
                ),
                _ => r.0 == DriverState::Sleeping { delay_secs } && r.1 == Action::Sleep(
                    delay_secs,
                ),
            },
        },
{
    match state {
        DriverState::Connecting => match input {
            Input::Opened { status, content_type } => {
                let negotiated = match &content_type {
                    Some(ct) => negotiate(status, Some(ct.as_slice())),
                    None => negotiate(status, None),
                };
                match negotiated {
                    Ok(boundary) => (
                        DriverState::Streaming {
                            buffer: Vec::new(),
                            boundary,
                            is_first_frame: true,
                        },
                        Action::Emit(Event::Status(Notice::Connected)),
                    ),
                    Err(e) => (
                        DriverState::Sleeping { delay_secs: RECONNECT_DELAY_SECS },
                        Action::Emit(Event::Status(Notice::ConnectFailed(e))),
                    ),
                }
            },
            Input::OpenFailed(t) => (
                DriverState::Sleeping { delay_secs: RECONNECT_DELAY_SECS },
                Action::Emit(Event::Status(Notice::ConnectFailed(ConnectError::Transport(t)))),
            ),
            _ => (DriverState::Connecting, Action::Open),
        },
        DriverState::Streaming { mut buffer, boundary, is_first_frame } => match input {
            Input::ReadFailed(t) => (
                DriverState::Sleeping { delay_secs: RECONNECT_DELAY_SECS },
                Action::Emit(Event::Status(Notice::StreamFailed(t))),
            ),
            Input::Ended => (
                DriverState::Sleeping { delay_secs: RECONNECT_DELAY_SECS },
                Action::Emit(Event::Status(Notice::StreamEnded)),
            ),
            Input::Chunk(mut c) => {
                buffer.append(&mut c);
                pump(buffer, boundary, is_first_frame)
            },
            _ => pump(buffer, boundary, is_first_frame),
        },
        DriverState::Sleeping { delay_secs } => match input {
            Input::Woke => (DriverState::Connecting, Action::Emit(Event::Status(Notice::Reconnecting))),
            _ => (DriverState::Sleeping { delay_secs }, Action::Sleep(delay_secs)),
        },
    }
}

/// Drains the buffer once: a frame to hand out, or a request for more bytes.
fn pump(buffer: Vec<u8>, boundary: Vec<u8>, is_first_frame: bool) -> (r: (DriverState, Action))
    requires
        boundary@.len() > 0,
    ensures
        r.0.wf(),
        streamed(r, buffer@, boundary@, is_first_frame),
{
    let mut buffer = buffer;
    match drain(&mut buffer, boundary.as_slice(), is_first_frame) {
        Outcome::FrameReady(v) => (
            DriverState::Streaming { buffer, boundary, is_first_frame: false },
            Action::Emit(Event::FrameLoaded(v)),
        ),
        Outcome::NeedMoreData => (
            DriverState::Streaming { buffer, boundary, is_first_frame },
            Action::Read,
        ),
    }
}

} // verus!
