//! The session: one frame in, one command executed, one frame out, in turn.
//!
//! The session decides; the program around it moves the bytes. After every
//! step the session names the next thing to do on the stream or with the
//! payload codec, and the outcome comes back as the next event.

use vstd::prelude::*;
use vstd::string::*;
use crate::db::Database;
use crate::error::AncError;
use crate::executor::{execute_command, executes};
use crate::frame::{be32, encode_frame, frame_length, framed};
use crate::model::DbModel;
use crate::protocol::{CommandModel, ProtocolCommand, ProtocolResponse, ResponseModel};

verus! {

/// The response that reports `msg` for a request whose id is not known.
pub fn send_error(msg: String) -> (response: ProtocolResponse)
    ensures
        response@ == (ResponseModel::Error { id: 0, message: msg@ }),
{
    ProtocolResponse::Error { id: 0, message: msg }
}

/// The text that reports a payload which is no command.
pub open spec fn decode_failure_text(detail: Seq<char>) -> Seq<char> {
    AncError::DecodeError.message_text() + ": "@ + detail
}

/// The response to a payload that is no command; `detail` says why.
pub fn decode_failure(detail: &str) -> (response: ProtocolResponse)
    ensures
        response@ == (ResponseModel::Error { id: 0, message: decode_failure_text(detail@) }),
{
    let text = AncError::DecodeError.message().concat(": ").concat(detail);
    send_error(text)
}

/// Whether `response` answers `cmd`: the response of the execution where it
/// succeeds, and where it fails the error's text under the command's id.
pub open spec fn answers(
    before: DbModel,
    cmd: CommandModel,
    after: DbModel,
    response: ResponseModel,
) -> bool {
    match response {
        ResponseModel::Okay { .. } => executes(before, cmd, after, Ok(response)),
        ResponseModel::Error { id, message } => {
            &&& id == cmd.id()
            &&& exists|e: AncError|
                #[trigger] executes(before, cmd, after, Err(e)) && message == e.message_text()
        },
    }
}

/// Executes `cmd` and answers it. Every failure becomes an `Error` response
/// under the command's id.
pub fn respond(db: &mut Database, cmd: ProtocolCommand) -> (response: ProtocolResponse)
    requires
        old(db).wf(),
    ensures
        final(db).wf(),
        final(db).spec_location() == old(db).spec_location(),
        answers(old(db)@, cmd@, final(db)@, response@),
{
    let id: u32 = cmd.id();
    let ghost asked = cmd@;
    match execute_command(db, cmd) {
        Ok(response) => {
            proof {
                lemma_success_is_okay(old(db)@, asked, db@, response@);
            }
            response
        },
        Err(e) => {
            assert(executes(old(db)@, asked, db@, Err(e)));
            ProtocolResponse::Error { id, message: e.message() }
        },
    }
}

/// An execution that succeeds gives an `Okay` response.
pub proof fn lemma_success_is_okay(
    before: DbModel,
    cmd: CommandModel,
    after: DbModel,
    response: ResponseModel,
)
    requires
        executes(before, cmd, after, Ok(response)),
    ensures
        response is Okay,
{
}

/// Where a session stands.
#[derive(Clone, Copy, Debug, PartialEq, Eq, Structural)]
pub enum SessionState {
    /// Waiting for the four bytes of a length prefix.
    ReadingHeader,
    /// Waiting for the payload that the prefix declared.
    ReadingPayload { len: u32 },
    /// Waiting for the codec to turn the payload into a command.
    Decoding,
    /// Waiting for the codec to turn the response into bytes.
    Encoding,
    /// Waiting for the response frame to be written out.
    Writing,
    /// The stream ended between frames.
    Closed,
    /// The stream failed or ended inside a frame.
    Failed,
}

/// What came of the last action.
pub enum SessionEvent {
    /// The four bytes of a length prefix were read.
    Header { prefix: [u8; 4] },
    /// The stream ended or failed before the bytes asked for were read.
    EndOfStream,
    /// Payload bytes were read.
    Payload { bytes: Vec<u8> },
    /// The codec read a command from the payload.
    Decoded { command: ProtocolCommand },
    /// The codec could not read a command from the payload.
    DecodeFailed { detail: String },
    /// The codec wrote the response as bytes.
    Encoded { bytes: Vec<u8> },
    /// The frame was written and flushed.
    Written,
    /// The frame could not be written.
    WriteFailed,
}

/// What to do next.
pub enum SessionAction {
    /// Read the four bytes of a length prefix.
    ReadHeader,
    /// Read exactly `len` payload bytes.
    ReadPayload { len: u32 },
    /// Hand the payload to the codec.
    Decode { payload: Vec<u8> },
    /// Hand the response to the codec.
    Encode { response: ProtocolResponse },
    /// Write the frame and flush.
    Write { frame: Vec<u8> },
    /// End the session; nothing went wrong.
    Stop,
    /// End the session with the error.
    Fail { error: AncError },
}

/// The text that reports a frame without payload.
pub open spec fn empty_payload_text() -> Seq<char> {
    decode_failure_text("empty payload"@)
}

/// Whether `next` and `action` are the session's step from `state` on
/// `event`, with the database going from `before` to `after`.
///
/// A session that has ended stays ended. A stream that ends where a prefix
/// is due closes the session. A prefix leads to reading the payload it
/// declares; anything but exactly that payload fails the session. A payload
/// goes to the codec, unless it is empty, which no command is. A command is
/// executed and answered; a payload that is no command is answered with an
/// error; either way the session goes on. The response reaches the stream in
/// a frame, after which the next prefix is due. An event that the state does
/// not wait for fails the session.
pub open spec fn steps(
    state: SessionState,
    event: SessionEvent,
    before: DbModel,
    after: DbModel,
    next: SessionState,
    action: SessionAction,
) -> bool {
    match (state, event) {
        (SessionState::Closed, _) => {
            &&& after == before
            &&& next == SessionState::Closed
            &&& action is Stop
        },
        (SessionState::ReadingHeader, SessionEvent::EndOfStream) => {
            &&& after == before
            &&& next == SessionState::Closed
            &&& action is Stop
        },
        (SessionState::ReadingHeader, SessionEvent::Header { prefix }) => {
            &&& after == before
            &&& next == (SessionState::ReadingPayload { len: be32(prefix@) as u32 })
            &&& action matches SessionAction::ReadPayload { len }
            &&& len == be32(prefix@)
        },
        (SessionState::ReadingPayload { len }, SessionEvent::Payload { bytes }) => {
            if bytes@.len() != len {
                &&& after == before
                &&& next == SessionState::Failed
                &&& action matches SessionAction::Fail { error }
                &&& error == AncError::IOError
            } else if len == 0 {
                &&& after == before
                &&& next == SessionState::Encoding
                &&& action matches SessionAction::Encode { response }
                &&& response@ == (ResponseModel::Error { id: 0, message: empty_payload_text() })
            } else {
                &&& after == before
                &&& next == SessionState::Decoding
                &&& action matches SessionAction::Decode { payload }
                &&& payload@ == bytes@
            }
        },
        (SessionState::Decoding, SessionEvent::Decoded { command }) => {
            &&& next == SessionState::Encoding
            &&& action matches SessionAction::Encode { response }
            &&& answers(before, command@, after, response@)
        },
        (SessionState::Decoding, SessionEvent::DecodeFailed { detail }) => {
            &&& after == before
            &&& next == SessionState::Encoding
            &&& action matches SessionAction::Encode { response }
            &&& response@ == (ResponseModel::Error {
                id: 0,
                message: decode_failure_text(detail@),
            })
        },
        (SessionState::Encoding, SessionEvent::Encoded { bytes }) => {
            if bytes@.len() <= u32::MAX {
                &&& after == before
                &&& next == SessionState::Writing
                &&& action matches SessionAction::Write { frame }
                &&& frame@ == framed(bytes@)
            } else {
                &&& after == before
                &&& next == SessionState::Failed
                &&& action matches SessionAction::Fail { error }
                &&& error == AncError::IOError
            }
        },
        (SessionState::Writing, SessionEvent::Written) => {
            &&& after == before
            &&& next == SessionState::ReadingHeader
            &&& action is ReadHeader
        },
        _ => {
            &&& after == before
            &&& next == SessionState::Failed
            &&& action matches SessionAction::Fail { error }
            &&& error == AncError::IOError
        },
    }
}

/// A session over one byte stream.
pub struct Session {
    state: SessionState,
}

impl Session {
    /// Where the session stands.
    pub closed spec fn spec_state(&self) -> SessionState {
        self.state
    }

    /// A session at the start of its stream, and the first thing to do.
    pub fn start() -> (begun: (Session, SessionAction))
        ensures
            begun.0.spec_state() == SessionState::ReadingHeader,
            begun.1 is ReadHeader,
    {
        (Session { state: SessionState::ReadingHeader }, SessionAction::ReadHeader)
    }

    /// Where the session stands.
    pub fn state(&self) -> (state: SessionState)
        ensures
            state == self.spec_state(),
    {
        self.state
    }

    /// Whether the session has ended.
    pub fn is_over(&self) -> (over: bool)
        ensures
            over == (self.spec_state() == SessionState::Closed || self.spec_state()
                == SessionState::Failed),
    {
        match self.state {
            SessionState::Closed => true,
            SessionState::Failed => true,
            _ => false,
        }
    }

    /// Takes the outcome of the last action and says what to do next.
    pub fn step(&mut self, event: SessionEvent, db: &mut Database) -> (action: SessionAction)
        requires
            old(db).wf(),
        ensures
            final(db).wf(),
            final(db).spec_location() == old(db).spec_location(),
            steps(
                old(self).spec_state(),
                event,
                old(db)@,
                final(db)@,
                final(self).spec_state(),
                action,
            ),
    {
        let state = self.state;
        match (state, event) {
            (SessionState::Closed, _) => SessionAction::Stop,
            (SessionState::ReadingHeader, SessionEvent::EndOfStream) => {
                self.state = SessionState::Closed;
                SessionAction::Stop
            },
            (SessionState::ReadingHeader, SessionEvent::Header { prefix }) => {
                let len: u32 = frame_length(&prefix);
                self.state = SessionState::ReadingPayload { len };
                SessionAction::ReadPayload { len }
            },
            (SessionState::ReadingPayload { len }, SessionEvent::Payload { bytes }) => {
                if bytes.len() != len as usize {
                    self.state = SessionState::Failed;
                    SessionAction::Fail { error: AncError::IOError }
                } else if len == 0 {
                    self.state = SessionState::Encoding;
                    SessionAction::Encode { response: decode_failure("empty payload") }
                } else {
                    self.state = SessionState::Decoding;
                    SessionAction::Decode { payload: bytes }
                }
            },
            (SessionState::Decoding, SessionEvent::Decoded { command }) => {
                self.state = SessionState::Encoding;
                SessionAction::Encode { response: respond(db, command) }
            },
            (SessionState::Decoding, SessionEvent::DecodeFailed { detail }) => {
                self.state = SessionState::Encoding;
                SessionAction::Encode { response: decode_failure(detail.as_str()) }
            },
            (SessionState::Encoding, SessionEvent::Encoded { bytes }) => {
                match encode_frame(bytes.as_slice()) {
                    Ok(frame) => {
                        self.state = SessionState::Writing;
                        SessionAction::Write { frame }
                    },
                    Err(error) => {
                        self.state = SessionState::Failed;
                        SessionAction::Fail { error }
                    },
                }
            },
            (SessionState::Writing, SessionEvent::Written) => {
                self.state = SessionState::ReadingHeader;
                SessionAction::ReadHeader
            },
            _ => {
                self.state = SessionState::Failed;
                SessionAction::Fail { error: AncError::IOError }
            },
        }
    }
}

} // verus!
