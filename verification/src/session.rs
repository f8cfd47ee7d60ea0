//! The decisions of a session: which operation is allowed in which state, what
//! goes out on the transport, and what a frame that came in means.
//!
//! Nothing here touches a transport. The caller opens it, writes what
//! [`Session::begin_bind`] hands out, reads four bytes and then as many as
//! [`frame_remainder`] says, and hands the frame to
//! [`Session::complete_bind`].

use crate::bound_atomic::BoundAtomic;
use crate::protocol::{
    BindReceiver, BindReceiverResp, BindTransceiver, BindTransceiverResp, BindTransmitter,
    BindTransmitterResp, BodyView, PduView, SmppBody, SmppHeader, SmppPdu, HEADER_LENGTH,
};
use crate::wire::{be32_value, u32_at, DecodeError};
use vstd::prelude::*;

verus! {

/// The first sequence number of a session.
pub const FIRST_SEQUENCE_NUMBER: i32 = 1;

/// The last sequence number before a session starts over with the first.
pub const LAST_SEQUENCE_NUMBER: i32 = 0x7FFF_FFFF;

/// The number of bytes that are read first of every frame: its length field.
pub const LENGTH_PREFIX: usize = 4;

/// The role that a client asks for when it binds.
#[derive(Debug, Clone, Copy, PartialEq, Eq, Structural)]
pub enum BindKind {
    /// The client receives messages.
    Receiver,
    /// The client submits messages.
    Transmitter,
    /// The client does both.
    Transceiver,
}

impl BindKind {
    /// The kind of the bind that a body asks for, if it is a bind request.
    pub open spec fn requested_by(body: BodyView) -> Option<BindKind> {
        match body {
            BodyView::BindReceiver(_) => Some(BindKind::Receiver),
            BodyView::BindTransmitter(_) => Some(BindKind::Transmitter),
            BodyView::BindTransceiver(_) => Some(BindKind::Transceiver),
            _ => None,
        }
    }

    /// The kind of the bind that a body answers, if it is a bind response.
    pub open spec fn answered_by(body: BodyView) -> Option<BindKind> {
        match body {
            BodyView::BindReceiverResp(_) => Some(BindKind::Receiver),
            BodyView::BindTransmitterResp(_) => Some(BindKind::Transmitter),
            BodyView::BindTransceiverResp(_) => Some(BindKind::Transceiver),
            _ => None,
        }
    }
}

/// A bind request of one of the three kinds, with the credentials of the
/// client.
#[derive(Debug, Clone, PartialEq, Eq)]
pub enum BindRequest {
    Receiver(BindReceiver),
    Transmitter(BindTransmitter),
    Transceiver(BindTransceiver),
}

/// The view of a bind request is that of the body it is sent as.
impl View for BindRequest {
    type V = BodyView;

    open spec fn view(&self) -> BodyView {
        match self {
            BindRequest::Receiver(b) => BodyView::BindReceiver(b@),
            BindRequest::Transmitter(b) => BodyView::BindTransmitter(b@),
            BindRequest::Transceiver(b) => BodyView::BindTransceiver(b@),
        }
    }
}

impl BindRequest {
    /// The kind of bind that is asked for.
    pub fn kind(&self) -> (kind: BindKind)
        ensures
            BindKind::requested_by(self@) == Some(kind),
    {
        match self {
            BindRequest::Receiver(_) => BindKind::Receiver,
            BindRequest::Transmitter(_) => BindKind::Transmitter,
            BindRequest::Transceiver(_) => BindKind::Transceiver,
        }
    }

    /// The body that the request is sent as.
    pub fn into_body(self) -> (body: SmppBody)
        ensures
            body@ == self@,
    {
        match self {
            BindRequest::Receiver(b) => SmppBody::BindReceiver(b),
            BindRequest::Transmitter(b) => SmppBody::BindTransmitter(b),
            BindRequest::Transceiver(b) => SmppBody::BindTransceiver(b),
        }
    }
}

/// The response that accepts a bind request, of one of the three kinds.
#[derive(Debug, Clone, PartialEq, Eq)]
pub enum BindResponse {
    Receiver(BindReceiverResp),
    Transmitter(BindTransmitterResp),
    Transceiver(BindTransceiverResp),
}

/// The view of a bind response is that of the body it came as.
impl View for BindResponse {
    type V = BodyView;

    open spec fn view(&self) -> BodyView {
        match self {
            BindResponse::Receiver(b) => BodyView::BindReceiverResp(b@),
            BindResponse::Transmitter(b) => BodyView::BindTransmitterResp(b@),
            BindResponse::Transceiver(b) => BodyView::BindTransceiverResp(b@),
        }
    }
}

impl BindResponse {
    /// The bind response that a body is, if it is one.
    pub fn from_body(body: SmppBody) -> (r: Option<BindResponse>)
        ensures
            match r {
                Some(response) => response@ == body@,
                None => BindKind::answered_by(body@) is None,
            },
    {
        match body {
            SmppBody::BindReceiverResp(b) => Some(BindResponse::Receiver(b)),
            SmppBody::BindTransmitterResp(b) => Some(BindResponse::Transmitter(b)),
            SmppBody::BindTransceiverResp(b) => Some(BindResponse::Transceiver(b)),
            _ => None,
        }
    }

    /// The kind of bind that was accepted.
    pub fn kind(&self) -> (kind: BindKind)
        ensures
            BindKind::answered_by(self@) == Some(kind),
    {
        match self {
            BindResponse::Receiver(_) => BindKind::Receiver,
            BindResponse::Transmitter(_) => BindKind::Transmitter,
            BindResponse::Transceiver(_) => BindKind::Transceiver,
        }
    }
}

/// Where a session stands.
#[derive(Debug, Clone, Copy, PartialEq, Eq)]
pub enum SessionState {
    /// No transport was opened yet.
    Disconnected,
    /// The transport is open and the session is not bound.
    Connected,
    /// A bind request of this kind and with this sequence number is out and
    /// not yet answered.
    Binding { kind: BindKind, sequence_number: i32 },
    /// The peer accepted the bind request.
    Bound,
    /// The session is over.
    Closed,
}

/// Why an operation of a session failed.
#[derive(Debug, Clone, Copy, PartialEq, Eq)]
pub enum SessionError {
    /// The transport could not be opened, written or read.
    ConnectionError,
    /// The operation needs a transport, and the session has none yet or has
    /// none any more.
    NotConnected,
    /// The operation does not fit the state of the session.
    InvalidState,
    /// The request is too long for the length field of a frame.
    FrameTooLarge,
    /// The frame that came in could not be decoded.
    Decode(DecodeError),
    /// The peer refused the request with this status.
    ErrorResponse(i32),
    /// The frame that came in does not answer the request that is out.
    ProtocolViolation,
}

impl SessionState {
    /// True while the session holds an open transport.
    pub open spec fn has_transport(self) -> bool {
        self is Connected || self is Binding || self is Bound
    }

    /// Why a transport cannot be opened in this state, if it cannot: only a
    /// session that never had one may open one.
    pub open spec fn connect_refusal(self) -> Option<SessionError> {
        match self {
            SessionState::Disconnected => None,
            SessionState::Closed => Some(SessionError::NotConnected),
            _ => Some(SessionError::InvalidState),
        }
    }

    /// Why a bind request cannot go out in this state, if it cannot: the
    /// transport must be open and the session neither bound nor binding.
    pub open spec fn bind_refusal(self) -> Option<SessionError> {
        match self {
            SessionState::Connected => None,
            SessionState::Disconnected | SessionState::Closed => Some(SessionError::NotConnected),
            _ => Some(SessionError::InvalidState),
        }
    }

    /// Why no response is awaited in this state, if none is.
    pub open spec fn response_refusal(self) -> Option<SessionError> {
        match self {
            SessionState::Binding { .. } => None,
            SessionState::Disconnected | SessionState::Closed => Some(SessionError::NotConnected),
            _ => Some(SessionError::InvalidState),
        }
    }
}

/// The unit that a session sends to bind under `sequence_number`. Its
/// `command_length` is of no account: the frame carries its own.
pub open spec fn bind_request(sequence_number: i32, request: BodyView) -> PduView {
    PduView {
        header: SmppHeader {
            command_length: 0,
            command_id: request.command_id(),
            command_status: 0,
            sequence_number,
        },
        body: request,
    }
}

/// True when the frame of a bind request is not too long for its length
/// field.
pub open spec fn bind_request_fits(request: BodyView) -> bool {
    HEADER_LENGTH + request.wire().len() <= u32::MAX
}

/// What a frame means to a session whose bind request of kind `kind` went out
/// under `sequence_number`: the result of the bind, and the state that the
/// session is in after it.
///
/// A frame that cannot be decoded is handed on as such and leaves the session
/// connected. A frame under another sequence number, or one that is no
/// response to a bind of this kind, ends the session. A status other than
/// zero is the peer's refusal and leaves the session connected and unbound.
pub open spec fn bind_outcome(kind: BindKind, sequence_number: i32, frame: Seq<u8>) -> (
    Result<BodyView, SessionError>,
    SessionState,
) {
    match PduView::parse(frame) {
        Err(e) => (Err(SessionError::Decode(e)), SessionState::Connected),
        Ok(pdu) => if pdu.header.sequence_number != sequence_number {
            (Err(SessionError::ProtocolViolation), SessionState::Closed)
        } else if pdu.header.command_status != 0 {
            (Err(SessionError::ErrorResponse(pdu.header.command_status)), SessionState::Connected)
        } else if BindKind::answered_by(pdu.body) == Some(kind) {
            (Ok(pdu.body), SessionState::Bound)
        } else {
            (Err(SessionError::ProtocolViolation), SessionState::Closed)
        },
    }
}

/// The number of bytes of a frame that follow its length field, given the
/// four bytes of that field. A frame that declares fewer bytes than the field
/// itself has no header.
pub fn frame_remainder(prefix: &[u8; 4]) -> (r: Result<usize, DecodeError>)
    ensures
        be32_value(prefix@) >= LENGTH_PREFIX ==> r == Ok::<usize, DecodeError>(
            (be32_value(prefix@) - LENGTH_PREFIX) as usize,
        ),
        be32_value(prefix@) < LENGTH_PREFIX ==> r == Err::<usize, DecodeError>(
            DecodeError::TruncatedHeader,
        ),
{
    let bytes = vstd::array::array_as_slice(prefix);
    assert(bytes@.subrange(0, 4) =~= prefix@);
    let command_length = u32_at(bytes, 0);
    if command_length < LENGTH_PREFIX as u32 {
        Err(DecodeError::TruncatedHeader)
    } else {
        Ok((command_length - LENGTH_PREFIX as u32) as usize)
    }
}

/// One session of a client with a message center.
pub struct Session {
    state: SessionState,
    sequence_number: BoundAtomic,
}

/// The view of a session is the state it is in.
impl View for Session {
    type V = SessionState;

    closed spec fn view(&self) -> SessionState {
        self.state
    }
}

impl Session {
    #[verifier::type_invariant]
    spec fn numbers_in_range(&self) -> bool {
        &&& self.sequence_number.min() == FIRST_SEQUENCE_NUMBER
        &&& self.sequence_number.max() == LAST_SEQUENCE_NUMBER
    }

    /// A session without a transport.
    pub fn new() -> (session: Session)
        ensures
            session@ == SessionState::Disconnected,
    {
        Session {
            state: SessionState::Disconnected,
            sequence_number: BoundAtomic::new(FIRST_SEQUENCE_NUMBER, LAST_SEQUENCE_NUMBER),
        }
    }

    /// Where the session stands.
    pub fn state(&self) -> (state: SessionState)
        ensures
            state == self@,
    {
        self.state
    }

    /// Says whether a transport may be opened now.
    pub fn check_connect(&self) -> (r: Result<(), SessionError>)
        ensures
            match self@.connect_refusal() {
                Some(e) => r == Err::<(), SessionError>(e),
                None => r == Ok::<(), SessionError>(()),
            },
    {
        match self.state {
            SessionState::Disconnected => Ok(()),
            SessionState::Closed => Err(SessionError::NotConnected),
            _ => Err(SessionError::InvalidState),
        }
    }

    /// Takes note of how opening the transport went. Where it was opened the
    /// session is connected; where it was not, the session stays as it was
    /// and the failure is a connection error.
    pub fn complete_connect(&mut self, opened: bool) -> (r: Result<(), SessionError>)
        ensures
            match old(self)@.connect_refusal() {
                Some(e) => r == Err::<(), SessionError>(e) && final(self)@ == old(self)@,
                None => if opened {
                    &&& r == Ok::<(), SessionError>(())
                    &&& final(self)@ == SessionState::Connected
                } else {
                    &&& r == Err::<(), SessionError>(SessionError::ConnectionError)
                    &&& final(self)@ == SessionState::Disconnected
                },
            },
    {
        proof {
            use_type_invariant(&*self);
        }
        self.check_connect()?;
        if opened {
            self.state = SessionState::Connected;
            Ok(())
        } else {
            Err(SessionError::ConnectionError)
        }
    }

    /// Starts a bind: gives the frame of the bind request under a fresh
    /// sequence number, which the session then waits to see answered. A
    /// session that is not connected, or is bound or binding already, sends
    /// nothing and stays as it is; so does one whose request is too long for a
    /// frame.
    pub fn begin_bind(&mut self, request: BindRequest) -> (r: Result<Vec<u8>, SessionError>)
        ensures
            match old(self)@.bind_refusal() {
                Some(e) => r == Err::<Vec<u8>, SessionError>(e) && final(self)@ == old(self)@,
                None => if bind_request_fits(request@) {
                    &&& r matches Ok(frame)
                    &&& final(self)@ matches SessionState::Binding { kind, sequence_number }
                    &&& BindKind::requested_by(request@) == Some(kind)
                    &&& FIRST_SEQUENCE_NUMBER <= sequence_number <= LAST_SEQUENCE_NUMBER
                    &&& frame@ == bind_request(sequence_number, request@).wire()
                } else {
                    &&& r == Err::<Vec<u8>, SessionError>(SessionError::FrameTooLarge)
                    &&& final(self)@ == SessionState::Connected
                },
            },
    {
        proof {
            use_type_invariant(&*self);
        }
        match self.state {
            SessionState::Connected => {},
            SessionState::Disconnected | SessionState::Closed => {
                return Err(SessionError::NotConnected);
            },
            _ => {
                return Err(SessionError::InvalidState);
            },
        }
        let kind = request.kind();
        let body = request.into_body();
        let sequence_number = self.sequence_number.next_val();
        let pdu = SmppPdu {
            header: SmppHeader {
                command_length: 0,
                command_id: body.command_id(),
                command_status: 0,
                sequence_number,
            },
            body,
        };
        match pdu.checked_encode() {
            Some(frame) => {
                self.state = SessionState::Binding { kind, sequence_number };
                Ok(frame)
            },
            None => Err(SessionError::FrameTooLarge),
        }
    }

    /// Takes the frame that came in answer to the bind request and says what
    /// became of the bind. A session that awaits no response stays as it is.
    pub fn complete_bind(&mut self, frame: &[u8]) -> (r: Result<BindResponse, SessionError>)
        ensures
            match old(self)@ {
                SessionState::Binding { kind, sequence_number } => {
                    &&& final(self)@ == bind_outcome(kind, sequence_number, frame@).1
                    &&& match bind_outcome(kind, sequence_number, frame@).0 {
                        Ok(response) => r matches Ok(b) && b@ == response,
                        Err(e) => r == Err::<BindResponse, SessionError>(e),
                    }
                },
                state => {
                    &&& state.response_refusal() matches Some(e)
                    &&& r == Err::<BindResponse, SessionError>(e)
                    &&& final(self)@ == state
                },
            },
    {
        proof {
            use_type_invariant(&*self);
        }
        let (kind, sequence_number) = match self.state {
            SessionState::Binding { kind, sequence_number } => (kind, sequence_number),
            SessionState::Disconnected | SessionState::Closed => {
                return Err(SessionError::NotConnected);
            },
            _ => {
                return Err(SessionError::InvalidState);
            },
        };
        let response = match SmppPdu::decode(frame) {
            Ok(response) => response,
            Err(e) => {
                self.state = SessionState::Connected;
                return Err(SessionError::Decode(e));
            },
        };
        if response.header.sequence_number != sequence_number {
            self.state = SessionState::Closed;
            return Err(SessionError::ProtocolViolation);
        }
        if response.header.command_status != 0 {
            self.state = SessionState::Connected;
            return Err(SessionError::ErrorResponse(response.header.command_status));
        }
        match BindResponse::from_body(response.body) {
            Some(accepted) if accepted.kind() == kind => {
                self.state = SessionState::Bound;
                Ok(accepted)
            },
            _ => {
                self.state = SessionState::Closed;
                Err(SessionError::ProtocolViolation)
            },
        }
    }

    /// Takes note that the transport failed or a wait for it was given up.
    /// What was read of a frame is not taken up again: a session that had a
    /// transport is over.
    pub fn transport_failed(&mut self) -> (e: SessionError)
        ensures
            e == SessionError::ConnectionError,
            final(self)@ == if old(self)@.has_transport() {
                SessionState::Closed
            } else {
                old(self)@
            },
    {
        proof {
            use_type_invariant(&*self);
        }
        match self.state {
            SessionState::Disconnected | SessionState::Closed => {},
            _ => {
                self.state = SessionState::Closed;
            },
        }
        SessionError::ConnectionError
    }

    /// Closes the session and says whether there is a transport to shut
    /// down. Closing a session that has none, because it never had one or was
    /// closed before, changes nothing.
    pub fn close(&mut self) -> (shut_down: bool)
        ensures
            shut_down == old(self)@.has_transport(),
            final(self)@ == if shut_down {
                SessionState::Closed
            } else {
                old(self)@
            },
            !final(self)@.has_transport(),
    {
        proof {
            use_type_invariant(&*self);
        }
        match self.state {
            SessionState::Disconnected | SessionState::Closed => false,
            _ => {
                self.state = SessionState::Closed;
                true
            },
        }
    }
}

} // verus!
