use smpp_rust::constant::{
    BIND_RECEIVER_ID, BIND_TRANSMITTER_ID, BIND_TRANSMITTER_RESP_ID, ENQUIRE_LINK_ID,
    SUBMIT_SM_ID, UNBIND_RESP_ID,
};
use smpp_rust::protocol::{
    BindReceiver, BindTransmitter, BindTransmitterResp, DecodeError, EnquireLink, SmppBody,
    SmppHeader, SmppPdu, SubmitSm, TagLengthValue, UnbindResp,
};

fn header(command_id: u32, command_status: i32, sequence_number: i32) -> SmppHeader {
    SmppHeader { command_length: 0, command_id, command_status, sequence_number }
}

fn transmitter() -> BindTransmitter {
    BindTransmitter {
        system_id: "sys".to_string(),
        password: "pwd".to_string(),
        system_type: "t".to_string(),
        interface_version: 0x34,
        addr_ton: 0,
        addr_npi: 0,
        address_range: "".to_string(),
    }
}

fn frame(command_id: u32, command_status: i32, sequence_number: i32, body: &[u8]) -> Vec<u8> {
    let mut buf: Vec<u8> = Vec::new();
    buf.extend_from_slice(&((16 + body.len()) as u32).to_be_bytes());
    buf.extend_from_slice(&command_id.to_be_bytes());
    buf.extend_from_slice(&command_status.to_be_bytes());
    buf.extend_from_slice(&sequence_number.to_be_bytes());
    buf.extend_from_slice(body);
    buf
}

#[test]
fn bind_transmitter_body_is_its_fields_in_order() {
    let body = transmitter().encode();
    assert_eq!(body, b"sys\0pwd\0t\0\x34\0\0\0".to_vec());
    assert_eq!(body.len(), 14);
}

#[test]
fn bind_transmitter_frame_carries_its_length() {
    let pdu = SmppPdu {
        header: header(BIND_TRANSMITTER_ID, 0, 1),
        body: SmppBody::BindTransmitter(transmitter()),
    };
    let buf = pdu.encode();
    assert_eq!(buf.len(), 30);
    assert_eq!(buf[0..4].to_vec(), vec![0u8, 0, 0, 30]);
    assert_eq!(buf[4..8].to_vec(), vec![0u8, 0, 0, 2]);
    assert_eq!(buf[8..12].to_vec(), vec![0u8, 0, 0, 0]);
    assert_eq!(buf[12..16].to_vec(), vec![0u8, 0, 0, 1]);
    assert_eq!(buf[16..].to_vec(), b"sys\0pwd\0t\0\x34\0\0\0".to_vec());
}

#[test]
fn header_is_sixteen_bytes_big_endian() {
    let h = SmppHeader {
        command_length: 0x0102_0304,
        command_id: 0x8000_0009,
        command_status: -2,
        sequence_number: 0x7FFF_FFFF,
    };
    assert_eq!(
        h.encode(),
        vec![1u8, 2, 3, 4, 0x80, 0, 0, 9, 0xFF, 0xFF, 0xFF, 0xFE, 0x7F, 0xFF, 0xFF, 0xFF]
    );
    assert_eq!(SmppHeader::decode(&h.encode()), Ok(h));
}

#[test]
fn header_decode_ignores_what_follows_it() {
    let mut buf = header(ENQUIRE_LINK_ID, 0, 9).encode();
    buf.extend_from_slice(&[1, 2, 3]);
    assert_eq!(SmppHeader::decode(&buf), Ok(header(ENQUIRE_LINK_ID, 0, 9)));
}

#[test]
fn encode_writes_the_length_of_the_frame_whatever_the_header_holds() {
    let mut pdu = SmppPdu {
        header: header(UNBIND_RESP_ID, 0, 5),
        body: SmppBody::UnbindResp(UnbindResp {}),
    };
    pdu.header.command_length = 999;
    let buf = pdu.encode();
    assert_eq!(buf.len(), 16);
    assert_eq!(buf[0..4].to_vec(), vec![0u8, 0, 0, 16]);
    let back = SmppPdu::decode(&buf).unwrap();
    assert_eq!(back.header.command_length, 16);
    assert_eq!(back.body, SmppBody::UnbindResp(UnbindResp {}));
}

#[test]
fn frame_comes_back_as_the_unit_it_holds() {
    let pdu = SmppPdu {
        header: SmppHeader {
            command_length: 30,
            command_id: BIND_TRANSMITTER_ID,
            command_status: 0,
            sequence_number: 77,
        },
        body: SmppBody::BindTransmitter(transmitter()),
    };
    let buf = pdu.encode();
    assert_eq!(buf.len() as u32, pdu.header.command_length);
    assert_eq!(SmppPdu::decode(&buf), Ok(pdu));
}

#[test]
fn short_buffers_have_no_header() {
    let full = frame(ENQUIRE_LINK_ID, 0, 1, &[]);
    let mut n: usize = 0;
    while n < 16 {
        assert_eq!(SmppPdu::decode(&full[..n]), Err(DecodeError::TruncatedHeader));
        assert_eq!(SmppHeader::decode(&full[..n]), Err(DecodeError::TruncatedHeader));
        n += 1;
    }
    assert_eq!(
        SmppPdu::decode(&full),
        Ok(SmppPdu {
            header: SmppHeader {
                command_length: 16,
                command_id: ENQUIRE_LINK_ID,
                command_status: 0,
                sequence_number: 1
            },
            body: SmppBody::EnquireLink(EnquireLink {}),
        })
    );
}

#[test]
fn declared_length_must_be_the_length_of_the_frame() {
    let mut long = frame(ENQUIRE_LINK_ID, 0, 1, &[]);
    long.push(0);
    assert_eq!(SmppPdu::decode(&long), Err(DecodeError::LengthMismatch));
    let mut short = frame(BIND_TRANSMITTER_RESP_ID, 0, 1, b"smsc\0");
    short.pop();
    assert_eq!(SmppPdu::decode(&short), Err(DecodeError::LengthMismatch));
}

#[test]
fn unknown_command_is_unsupported() {
    assert_eq!(
        SmppPdu::decode(&frame(0x0000_0099, 0, 1, &[])),
        Err(DecodeError::UnsupportedCommand)
    );
    assert_eq!(
        SmppPdu::decode(&frame(0x8000_0000, 0, 1, &[])),
        Err(DecodeError::UnsupportedCommand)
    );
    assert_eq!(SmppBody::decode(0x0000_000A, &[]), Err(DecodeError::UnsupportedCommand));
}

#[test]
fn string_without_terminator_is_unterminated() {
    assert_eq!(
        SmppPdu::decode(&frame(BIND_TRANSMITTER_RESP_ID, 0, 1, b"smsc")),
        Err(DecodeError::UnterminatedString)
    );
    assert_eq!(
        SmppPdu::decode(&frame(BIND_TRANSMITTER_RESP_ID, 0, 1, &[])),
        Err(DecodeError::UnterminatedString)
    );
    assert_eq!(
        SmppPdu::decode(&frame(BIND_RECEIVER_ID, 0, 1, b"sys\0pwd\0t")),
        Err(DecodeError::UnterminatedString)
    );
    assert_eq!(BindTransmitterResp::decode(b"abc"), Err(DecodeError::UnterminatedString));
}

#[test]
fn string_that_is_not_utf8_is_an_invalid_encoding() {
    assert_eq!(
        SmppPdu::decode(&frame(BIND_TRANSMITTER_RESP_ID, 0, 1, &[0xFF, 0xFE, 0])),
        Err(DecodeError::InvalidEncoding)
    );
    assert_eq!(BindTransmitterResp::decode(&[0xC3, 0]), Err(DecodeError::InvalidEncoding));
}

#[test]
fn string_of_several_bytes_a_character_is_read_as_text() {
    let resp = BindTransmitterResp::decode(&[0xC3, 0xA9, 0xE2, 0x82, 0xAC, 0]).unwrap();
    assert_eq!(resp.system_id, "\u{e9}\u{20ac}");
    assert_eq!(resp.encode(), vec![0xC3u8, 0xA9, 0xE2, 0x82, 0xAC, 0]);
}

#[test]
fn body_that_ends_before_its_fixed_fields_is_truncated() {
    assert_eq!(
        SmppPdu::decode(&frame(BIND_TRANSMITTER_ID, 0, 1, b"sys\0pwd\0t\0")),
        Err(DecodeError::TruncatedBody)
    );
    assert_eq!(
        SmppPdu::decode(&frame(BIND_TRANSMITTER_ID, 0, 1, b"sys\0pwd\0t\0\x34\0")),
        Err(DecodeError::TruncatedBody)
    );
    assert_eq!(BindReceiver::decode(b"a\0b\0c\0\x01"), Err(DecodeError::TruncatedBody));
}

#[test]
fn first_field_that_cannot_be_read_gives_the_error() {
    assert_eq!(BindTransmitter::decode(b"\xFF\0pwd"), Err(DecodeError::InvalidEncoding));
    assert_eq!(BindTransmitter::decode(b"sys\0pwd"), Err(DecodeError::UnterminatedString));
    assert_eq!(
        BindTransmitter::decode(b"sys\0pwd\0t\0\x34\0\0range"),
        Err(DecodeError::UnterminatedString)
    );
}

#[test]
fn bytes_behind_the_last_field_are_left_unread() {
    let resp = BindTransmitterResp::decode(b"smsc\0\x02\x10\x00\x01\x34").unwrap();
    assert_eq!(resp, BindTransmitterResp::new("smsc".to_string()));
    let pdu = SmppPdu::decode(&frame(BIND_TRANSMITTER_RESP_ID, 0, 3, b"smsc\0\x02\x10\x00\x01\x34"))
        .unwrap();
    assert_eq!(pdu.body, SmppBody::BindTransmitterResp(BindTransmitterResp::new("smsc".to_string())));
    assert_eq!(pdu.header.command_length, 26);
}

#[test]
fn string_with_a_nul_character_comes_back_cut() {
    let resp = BindTransmitterResp::new("ab\0cd".to_string());
    assert_eq!(resp.encode(), b"ab\0cd\0".to_vec());
    assert_eq!(
        BindTransmitterResp::decode(&resp.encode()),
        Ok(BindTransmitterResp::new("ab".to_string()))
    );
}

#[test]
fn checked_encode_refuses_a_wrong_count() {
    let mut body = SubmitSm {
        service_type: "".to_string(),
        source_addr_ton: 0,
        source_addr_npi: 0,
        source_addr: "".to_string(),
        dest_addr_ton: 0,
        dest_addr_npi: 0,
        destination_addr: "".to_string(),
        esm_class: 0,
        protocol_id: 0,
        priority_flag: 0,
        schedule_delivery_time: "".to_string(),
        validity_period: "".to_string(),
        registered_delivery: 0,
        replace_if_present_flag: 0,
        data_coding: 0,
        sm_default_msg_id: 0,
        sm_length: 3,
        short_message: vec![1, 2],
        message_payload: vec![],
    };
    assert!(!body.is_well_formed());
    let pdu = SmppPdu { header: header(SUBMIT_SM_ID, 0, 1), body: SmppBody::SubmitSm(body.clone()) };
    assert_eq!(pdu.checked_encode(), None);
    body.sm_length = 2;
    body.message_payload = vec![TagLengthValue { tag: 0x0424, length: 2, value: vec![7] }];
    let pdu = SmppPdu { header: header(SUBMIT_SM_ID, 0, 1), body: SmppBody::SubmitSm(body.clone()) };
    assert_eq!(pdu.checked_encode(), None);
    body.message_payload = vec![TagLengthValue { tag: 0x0424, length: 1, value: vec![7] }];
    assert!(body.is_well_formed());
    let pdu = SmppPdu { header: header(SUBMIT_SM_ID, 0, 1), body: SmppBody::SubmitSm(body) };
    assert_eq!(pdu.checked_encode(), Some(pdu.encode()));
}

#[test]
fn command_id_of_each_body() {
    assert_eq!(SmppBody::BindTransmitter(transmitter()).command_id(), 0x0000_0002);
    assert_eq!(
        SmppBody::BindTransmitterResp(BindTransmitterResp::new("".to_string())).command_id(),
        0x8000_0002
    );
    assert_eq!(SmppBody::EnquireLink(EnquireLink {}).command_id(), 0x0000_0015);
    assert_eq!(SmppBody::UnbindResp(UnbindResp {}).command_id(), 0x8000_0006);
}

#[test]
fn unit_that_was_read_can_be_written_again() {
    let with_more = frame(BIND_TRANSMITTER_RESP_ID, 0, 3, b"smsc\0\x02\x10\x00\x01\x34");
    let pdu = SmppPdu::decode(&with_more).unwrap();
    assert!(pdu.body.is_well_formed());
    assert_eq!(pdu.checked_encode(), Some(frame(BIND_TRANSMITTER_RESP_ID, 0, 3, b"smsc\0")));
    let exact = frame(BIND_TRANSMITTER_RESP_ID, 0, 3, b"smsc\0");
    let pdu = SmppPdu::decode(&exact).unwrap();
    assert_eq!(pdu.encode(), exact);
}
