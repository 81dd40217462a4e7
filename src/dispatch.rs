//! Classifying received payloads and decoding them into events, and the
//! decisions of the monitoring session around it.
use crate::codec::{u32_from_le, DecodeError};
use crate::digest::Sha256Buff;
use crate::event::image_load::{decode_payload_spec, fingerprint_spec, ImageLoadEvent, IMAGE_LOAD_CLASS};
use crate::event::{class_of, get_event_type, Pid};
use vstd::prelude::*;

verus! {

/// Relies on std::io::Error only to carry it as an opaque value.
#[verifier::external_type_specification]
#[verifier::external_body]
pub struct ExIoError(std::io::Error);

/// Why one received message produced no event.
#[derive(Debug)]
pub enum DetectionError {
    IoError(std::io::Error),
    SendMsgError(String),
    /// The class tag names no event kind this library knows.
    UnknownEvent,
    /// The payload is too short or holds a field that cannot be decoded.
    Malformed(DecodeError),
}

/// An event of any known kind.
#[derive(Debug)]
pub enum DecodedEvent {
    ImageLoad(ImageLoadEvent),
}

impl DecodedEvent {
    /// The process the event concerns.
    pub fn get_pid(&self) -> (r: Pid)
        ensures
            match self {
                DecodedEvent::ImageLoad(e) => r == Pid(e@.pid),
            },
    {
        match self {
            DecodedEvent::ImageLoad(e) => e.get_pid(),
        }
    }

    /// The digests of the event's significant fields, in declared order.
    pub fn hash_members(&self) -> (r: Vec<Sha256Buff>)
        ensures
            match self {
                DecodedEvent::ImageLoad(e) => r@.len() == fingerprint_spec(e@).len() && forall|i: int|
                    0 <= i < r@.len() ==> #[trigger] r@[i]@ == fingerprint_spec(e@)[i],
            },
    {
        match self {
            DecodedEvent::ImageLoad(e) => e.hash_members(),
        }
    }
}

/// Classifies a payload by its class tag and decodes it with the matching decoder.
/// A payload under four bytes, or one whose fields cannot be decoded, is malformed;
/// a tag of no known kind is an unknown event.
pub fn process_payload(event_buff: &[u8]) -> (r: Result<DecodedEvent, DetectionError>)
    ensures
        event_buff@.len() >= 4 && u32_from_le(event_buff@) != IMAGE_LOAD_CLASS ==> r matches Err(
            DetectionError::UnknownEvent,
        ),
        match class_of(event_buff@) {
            Err(x) => r matches Err(DetectionError::Malformed(y)) && y == x,
            Ok(c) => if c == IMAGE_LOAD_CLASS {
                match decode_payload_spec(event_buff@) {
                    Ok(m) => r matches Ok(DecodedEvent::ImageLoad(e)) && e@ == m,
                    Err(x) => r matches Err(DetectionError::Malformed(y)) && y == x,
                }
            } else {
                r matches Err(DetectionError::UnknownEvent)
            },
        },
{
    let class = match get_event_type(event_buff) {
        Ok(c) => c,
        Err(e) => return Err(DetectionError::Malformed(e)),
    };
    if class == ImageLoadEvent::EVENT_CLASS {
        match ImageLoadEvent::deserialize(event_buff) {
            Ok(e) => Ok(DecodedEvent::ImageLoad(e)),
            Err(e) => Err(DetectionError::Malformed(e)),
        }
    } else {
        Err(DetectionError::UnknownEvent)
    }
}

/// Where a monitoring session stands.
#[derive(Debug, Clone, Copy, PartialEq, Eq, Structural)]
pub enum SessionState {
    Disconnected,
    Connected,
    ConnectFailed,
    Stopped,
}

/// What happened to a session.
#[derive(Debug, Clone, Copy, PartialEq, Eq, Structural)]
pub enum SessionInput {
    /// The channel connect finished, successfully or not.
    ConnectDone(bool),
    /// A message was received and handled, successfully or not.
    MessageDone(bool),
    /// A key was pressed.
    Key(char),
}

/// The key that stops monitoring.
pub const QUIT_KEY: char = 'q';

/// The state a session moves to: a connect decides between connected and
/// failed, the quit key stops a connected session, and nothing else (in
/// particular no failed message) changes the state.
pub fn next_state(state: SessionState, input: SessionInput) -> (r: SessionState)
    ensures
        r == (match (state, input) {
            (SessionState::Disconnected, SessionInput::ConnectDone(true)) => SessionState::Connected,
            (SessionState::Disconnected, SessionInput::ConnectDone(false)) => SessionState::ConnectFailed,
            (SessionState::Connected, SessionInput::Key(k)) => if k == QUIT_KEY {
                SessionState::Stopped
            } else {
                SessionState::Connected
            },
            _ => state,
        }),
{
    match (state, input) {
        (SessionState::Disconnected, SessionInput::ConnectDone(ok)) => if ok {
            SessionState::Connected
        } else {
            SessionState::ConnectFailed
        },
        (SessionState::Connected, SessionInput::Key(k)) => if k == QUIT_KEY {
            SessionState::Stopped
        } else {
            SessionState::Connected
        },
        _ => state,
    }
}

/// How much the client logs.
#[derive(Debug, Clone, Copy, PartialEq, Eq, Structural)]
pub enum Verbosity {
    Off,
    Error,
    Warn,
    Info,
    Debug,
    Trace,
}

/// The verbosity that a count of `-l` flags asks for: none is off, and each flag
/// adds one level up to the most verbose.
pub fn verbosity_from_count(count: u8) -> (r: Verbosity)
    ensures
        r == (if count == 0 {
            Verbosity::Off
        } else if count == 1 {
            Verbosity::Error
        } else if count == 2 {
            Verbosity::Warn
        } else if count == 3 {
            Verbosity::Info
        } else if count == 4 {
            Verbosity::Debug
        } else {
            Verbosity::Trace
        }),
{
    match count {
        0 => Verbosity::Off,
        1 => Verbosity::Error,
        2 => Verbosity::Warn,
        3 => Verbosity::Info,
        4 => Verbosity::Debug,
        _ => Verbosity::Trace,
    }
}

} // verus!
