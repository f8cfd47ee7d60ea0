use smpp_rust::constant::{
    BIND_RECEIVER_ID, BIND_RECEIVER_RESP_ID, BIND_TRANSCEIVER_ID, BIND_TRANSCEIVER_RESP_ID,
    BIND_TRANSMITTER_ID, BIND_TRANSMITTER_RESP_ID, ENQUIRE_LINK_RESP_ID,
};
use smpp_rust::protocol::{
    BindReceiver, BindReceiverResp, BindTransceiver, BindTransceiverResp, BindTransmitter,
    BindTransmitterResp, DecodeError, SmppBody, UnbindResp,
};
use smpp_rust::session::{
    frame_remainder, BindKind, BindRequest, BindResponse, Session, SessionError, SessionState,
};

fn credentials() -> BindRequest {
    BindRequest::Transmitter(BindTransmitter {
        system_id: "system_id".to_string(),
        password: "password".to_string(),
        system_type: "system_type".to_string(),
        interface_version: 0x34,
        addr_ton: 0,
        addr_npi: 0,
        address_range: "".to_string(),
    })
}

fn accepted(system_id: &str) -> BindResponse {
    BindResponse::Transmitter(BindTransmitterResp::new(system_id.to_string()))
}

fn response(command_id: u32, command_status: i32, sequence_number: i32, body: &[u8]) -> Vec<u8> {
    let mut buf: Vec<u8> = Vec::new();
    buf.extend_from_slice(&((16 + body.len()) as u32).to_be_bytes());
    buf.extend_from_slice(&command_id.to_be_bytes());
    buf.extend_from_slice(&command_status.to_be_bytes());
    buf.extend_from_slice(&sequence_number.to_be_bytes());
    buf.extend_from_slice(body);
    buf
}

fn binding() -> (Session, i32) {
    let mut session = Session::new();
    assert_eq!(session.complete_connect(true), Ok(()));
    let request = session.begin_bind(credentials()).unwrap();
    let sequence_number = i32::from_be_bytes([request[12], request[13], request[14], request[15]]);
    assert_eq!(
        session.state(),
        SessionState::Binding { kind: BindKind::Transmitter, sequence_number }
    );
    (session, sequence_number)
}

#[test]
fn new_session_is_disconnected() {
    let session = Session::new();
    assert_eq!(session.state(), SessionState::Disconnected);
    assert_eq!(session.check_connect(), Ok(()));
}

#[test]
fn connect_opens_the_session() {
    let mut session = Session::new();
    assert_eq!(session.complete_connect(true), Ok(()));
    assert_eq!(session.state(), SessionState::Connected);
    assert_eq!(session.check_connect(), Err(SessionError::InvalidState));
    assert_eq!(session.complete_connect(true), Err(SessionError::InvalidState));
    assert_eq!(session.state(), SessionState::Connected);
}

#[test]
fn connect_that_fails_leaves_the_session_disconnected() {
    let mut session = Session::new();
    assert_eq!(session.complete_connect(false), Err(SessionError::ConnectionError));
    assert_eq!(session.state(), SessionState::Disconnected);
    assert_eq!(session.complete_connect(true), Ok(()));
    assert_eq!(session.state(), SessionState::Connected);
}

#[test]
fn bind_before_connect_is_not_connected() {
    let mut session = Session::new();
    assert_eq!(session.begin_bind(credentials()), Err(SessionError::NotConnected));
    assert_eq!(session.complete_bind(&[]), Err(SessionError::NotConnected));
    assert_eq!(session.state(), SessionState::Disconnected);
}

#[test]
fn bind_request_is_a_bind_transmitter_frame_with_the_first_sequence_number() {
    let mut session = Session::new();
    assert_eq!(session.complete_connect(true), Ok(()));
    let request = session.begin_bind(credentials()).unwrap();
    let mut expected: Vec<u8> = Vec::new();
    expected.extend_from_slice(&[0, 0, 0, 51]);
    expected.extend_from_slice(&BIND_TRANSMITTER_ID.to_be_bytes());
    expected.extend_from_slice(&[0, 0, 0, 0]);
    expected.extend_from_slice(&[0, 0, 0, 1]);
    expected.extend_from_slice(b"system_id\0password\0system_type\0\x34\0\0\0");
    assert_eq!(request, expected);
    assert_eq!(
        session.state(),
        SessionState::Binding { kind: BindKind::Transmitter, sequence_number: 1 }
    );
}

#[test]
fn bind_that_is_accepted_binds_the_session() {
    let (mut session, sequence_number) = binding();
    let frame = response(BIND_TRANSMITTER_RESP_ID, 0, sequence_number, b"smsc\0");
    assert_eq!(session.complete_bind(&frame), Ok(accepted("smsc")));
    assert_eq!(session.state(), SessionState::Bound);
    assert_eq!(session.begin_bind(credentials()), Err(SessionError::InvalidState));
    assert_eq!(session.complete_bind(&frame), Err(SessionError::InvalidState));
    assert_eq!(session.state(), SessionState::Bound);
}

#[test]
fn bind_that_is_refused_leaves_the_session_connected_and_unbound() {
    let (mut session, sequence_number) = binding();
    let frame = response(BIND_TRANSMITTER_RESP_ID, 0x0000_000D, sequence_number, b"\0");
    assert_eq!(session.complete_bind(&frame), Err(SessionError::ErrorResponse(0x0000_000D)));
    assert_eq!(session.state(), SessionState::Connected);
    let retry = session.begin_bind(credentials()).unwrap();
    assert_eq!(retry[12..16].to_vec(), vec![0u8, 0, 0, 2]);
    assert_eq!(
        session.state(),
        SessionState::Binding { kind: BindKind::Transmitter, sequence_number: 2 }
    );
    let frame = response(BIND_TRANSMITTER_RESP_ID, 0, 2, b"smsc\0");
    assert_eq!(session.complete_bind(&frame), Ok(accepted("smsc")));
    assert_eq!(session.state(), SessionState::Bound);
}

#[test]
fn refusal_with_a_negative_status() {
    let (mut session, sequence_number) = binding();
    let frame = response(BIND_TRANSMITTER_RESP_ID, -1, sequence_number, b"\0");
    assert_eq!(session.complete_bind(&frame), Err(SessionError::ErrorResponse(-1)));
    assert_eq!(session.state(), SessionState::Connected);
}

#[test]
fn second_bind_while_the_first_is_out_is_refused() {
    let (mut session, sequence_number) = binding();
    assert_eq!(session.begin_bind(credentials()), Err(SessionError::InvalidState));
    assert_eq!(
        session.state(),
        SessionState::Binding { kind: BindKind::Transmitter, sequence_number }
    );
}

#[test]
fn response_under_another_sequence_number_ends_the_session() {
    let (mut session, sequence_number) = binding();
    let frame = response(BIND_TRANSMITTER_RESP_ID, 0, sequence_number + 1, b"smsc\0");
    assert_eq!(session.complete_bind(&frame), Err(SessionError::ProtocolViolation));
    assert_eq!(session.state(), SessionState::Closed);
    let (mut session, sequence_number) = binding();
    let frame = response(BIND_TRANSMITTER_RESP_ID, 5, sequence_number + 1, b"smsc\0");
    assert_eq!(session.complete_bind(&frame), Err(SessionError::ProtocolViolation));
    assert_eq!(session.state(), SessionState::Closed);
}

#[test]
fn response_of_another_command_ends_the_session() {
    let (mut session, sequence_number) = binding();
    let frame = response(BIND_RECEIVER_RESP_ID, 0, sequence_number, b"smsc\0");
    assert_eq!(session.complete_bind(&frame), Err(SessionError::ProtocolViolation));
    assert_eq!(session.state(), SessionState::Closed);
    assert_eq!(session.begin_bind(credentials()), Err(SessionError::NotConnected));
    assert_eq!(session.check_connect(), Err(SessionError::NotConnected));
}

#[test]
fn response_that_cannot_be_decoded_is_handed_on() {
    let (mut session, sequence_number) = binding();
    let frame = response(BIND_TRANSMITTER_RESP_ID, 0, sequence_number, b"smsc");
    assert_eq!(
        session.complete_bind(&frame),
        Err(SessionError::Decode(DecodeError::UnterminatedString))
    );
    assert_eq!(session.state(), SessionState::Connected);
    let (mut session, _) = binding();
    assert_eq!(
        session.complete_bind(&[0, 0, 0, 8, 0, 0, 0, 0]),
        Err(SessionError::Decode(DecodeError::TruncatedHeader))
    );
    let (mut session, sequence_number) = binding();
    let frame = response(0x0000_0099, 0, sequence_number, &[]);
    assert_eq!(
        session.complete_bind(&frame),
        Err(SessionError::Decode(DecodeError::UnsupportedCommand))
    );
    assert_eq!(session.state(), SessionState::Connected);
}

#[test]
fn close_twice_succeeds_both_times() {
    let mut session = Session::new();
    assert_eq!(session.complete_connect(true), Ok(()));
    assert!(session.close());
    assert_eq!(session.state(), SessionState::Closed);
    assert!(!session.close());
    assert_eq!(session.state(), SessionState::Closed);
}

#[test]
fn close_of_a_session_that_never_connected_changes_nothing() {
    let mut session = Session::new();
    assert!(!session.close());
    assert_eq!(session.state(), SessionState::Disconnected);
    assert_eq!(session.complete_connect(true), Ok(()));
    assert_eq!(session.state(), SessionState::Connected);
}

#[test]
fn close_of_a_bound_or_binding_session_shuts_the_transport_down() {
    let (mut session, sequence_number) = binding();
    assert!(session.close());
    assert_eq!(session.state(), SessionState::Closed);
    let frame = response(BIND_TRANSMITTER_RESP_ID, 0, sequence_number, b"smsc\0");
    assert_eq!(session.complete_bind(&frame), Err(SessionError::NotConnected));
    let (mut session, sequence_number) = binding();
    let frame = response(BIND_TRANSMITTER_RESP_ID, 0, sequence_number, b"smsc\0");
    assert!(session.complete_bind(&frame).is_ok());
    assert!(session.close());
    assert_eq!(session.state(), SessionState::Closed);
    assert_eq!(session.complete_connect(true), Err(SessionError::NotConnected));
}

#[test]
fn transport_failure_ends_a_session_that_had_a_transport() {
    let (mut session, _) = binding();
    assert_eq!(session.transport_failed(), SessionError::ConnectionError);
    assert_eq!(session.state(), SessionState::Closed);
    assert!(!session.close());
    let mut session = Session::new();
    assert_eq!(session.transport_failed(), SessionError::ConnectionError);
    assert_eq!(session.state(), SessionState::Disconnected);
}

#[test]
fn remainder_of_a_frame_is_its_length_less_the_length_field() {
    assert_eq!(frame_remainder(&[0, 0, 0, 21]), Ok(17));
    assert_eq!(frame_remainder(&[0, 0, 0, 16]), Ok(12));
    assert_eq!(frame_remainder(&[0, 0, 1, 0]), Ok(252));
    assert_eq!(frame_remainder(&[0, 0, 0, 4]), Ok(0));
    assert_eq!(frame_remainder(&[0, 0, 0, 3]), Err(DecodeError::TruncatedHeader));
    assert_eq!(frame_remainder(&[0, 0, 0, 0]), Err(DecodeError::TruncatedHeader));
    assert_eq!(frame_remainder(&[0x10, 0, 0, 4]), Ok(0x1000_0000));
}

#[test]
fn bind_of_each_kind_is_answered_by_its_own_response() {
    let receiver = BindReceiver {
        system_id: "rx".to_string(),
        password: "".to_string(),
        system_type: "".to_string(),
        interface_version: 0x34,
        addr_ton: 0,
        addr_npi: 0,
        address_range: "".to_string(),
    };
    let transceiver = BindTransceiver {
        system_id: "trx".to_string(),
        password: "".to_string(),
        system_type: "".to_string(),
        interface_version: 0x34,
        addr_ton: 0,
        addr_npi: 0,
        address_range: "".to_string(),
    };

    let mut session = Session::new();
    assert_eq!(session.complete_connect(true), Ok(()));
    let request = session.begin_bind(BindRequest::Receiver(receiver.clone())).unwrap();
    assert_eq!(request[4..8].to_vec(), BIND_RECEIVER_ID.to_be_bytes().to_vec());
    assert_eq!(request[16..].to_vec(), receiver.encode());
    assert_eq!(
        session.state(),
        SessionState::Binding { kind: BindKind::Receiver, sequence_number: 1 }
    );
    assert_eq!(
        session.complete_bind(&response(BIND_RECEIVER_RESP_ID, 0, 1, b"smsc\0")),
        Ok(BindResponse::Receiver(BindReceiverResp { system_id: "smsc".to_string() }))
    );
    assert_eq!(session.state(), SessionState::Bound);

    let mut session = Session::new();
    assert_eq!(session.complete_connect(true), Ok(()));
    let request = session.begin_bind(BindRequest::Transceiver(transceiver.clone())).unwrap();
    assert_eq!(request[4..8].to_vec(), BIND_TRANSCEIVER_ID.to_be_bytes().to_vec());
    assert_eq!(request[16..].to_vec(), transceiver.encode());
    assert_eq!(
        session.complete_bind(&response(BIND_TRANSCEIVER_RESP_ID, 0, 1, b"\0")),
        Ok(BindResponse::Transceiver(BindTransceiverResp { system_id: "".to_string() }))
    );
    assert_eq!(session.state(), SessionState::Bound);

    let mut session = Session::new();
    assert_eq!(session.complete_connect(true), Ok(()));
    assert!(session.begin_bind(BindRequest::Receiver(receiver)).is_ok());
    assert_eq!(
        session.complete_bind(&response(BIND_TRANSCEIVER_RESP_ID, 0, 1, b"smsc\0")),
        Err(SessionError::ProtocolViolation)
    );
    assert_eq!(session.state(), SessionState::Closed);
}

#[test]
fn response_that_is_no_bind_response_ends_the_session() {
    let (mut session, sequence_number) = binding();
    let frame = response(ENQUIRE_LINK_RESP_ID, 0, sequence_number, &[]);
    assert_eq!(session.complete_bind(&frame), Err(SessionError::ProtocolViolation));
    assert_eq!(session.state(), SessionState::Closed);
}

#[test]
fn bind_request_and_response_know_their_kind_and_body() {
    assert_eq!(credentials().kind(), BindKind::Transmitter);
    assert_eq!(accepted("a").kind(), BindKind::Transmitter);
    assert_eq!(
        accepted("a").clone(),
        BindResponse::from_body(SmppBody::BindTransmitterResp(BindTransmitterResp::new(
            "a".to_string()
        )))
        .unwrap()
    );
    assert_eq!(BindResponse::from_body(SmppBody::UnbindResp(UnbindResp {})), None);
    assert_eq!(
        BindResponse::from_body(SmppBody::BindReceiverResp(BindReceiverResp {
            system_id: "b".to_string()
        }))
        .unwrap()
        .kind(),
        BindKind::Receiver
    );
    assert_eq!(credentials().into_body().command_id(), BIND_TRANSMITTER_ID);
}
