use smpp_rust::protocol::{
    BindReceiver, BindReceiverResp, BindTransceiver, BindTransceiverResp, BindTransmitter,
    BindTransmitterResp, CancelSm, CancelSmResp, DecodeError, DeliverSm, DeliverSmResp,
    DestinationAddress, EnquireLink, EnquireLinkResp, Outbind, QuerySm, QuerySmResp, ReplaceSm,
    ReplaceSmResp, SmppBody, SmppHeader, SmppPdu, SubmitMulti, SubmitMultiResp, SubmitSm,
    SubmitSmResp, TagLengthValue, Unbind, UnbindResp, UnsuccessfulDelivery,
};

fn round_trip(body: SmppBody, sequence_number: i32) -> Vec<u8> {
    let unframed = SmppPdu {
        header: SmppHeader {
            command_length: 0,
            command_id: body.command_id(),
            command_status: 0,
            sequence_number,
        },
        body,
    };
    let buf = unframed.encode();
    let pdu = SmppPdu {
        header: SmppHeader { command_length: buf.len() as u32, ..unframed.header },
        body: unframed.body,
    };
    assert_eq!(pdu.encode(), buf);
    assert_eq!(pdu.checked_encode(), Some(buf.clone()));
    assert_eq!(buf[0..4].to_vec(), (buf.len() as u32).to_be_bytes().to_vec());
    assert_eq!(SmppPdu::decode(&buf), Ok(pdu));
    buf[16..].to_vec()
}

fn submit_sm() -> SubmitSm {
    SubmitSm {
        service_type: "CMT".to_string(),
        source_addr_ton: 1,
        source_addr_npi: 2,
        source_addr: "12345".to_string(),
        dest_addr_ton: 3,
        dest_addr_npi: 4,
        destination_addr: "67890".to_string(),
        esm_class: 5,
        protocol_id: 6,
        priority_flag: 7,
        schedule_delivery_time: "".to_string(),
        validity_period: "000001000000000R".to_string(),
        registered_delivery: 8,
        replace_if_present_flag: 9,
        data_coding: 10,
        sm_default_msg_id: 11,
        sm_length: 5,
        short_message: b"hello".to_vec(),
        message_payload: vec![
            TagLengthValue { tag: 0x0424, length: 3, value: vec![0, 1, 2] },
            TagLengthValue { tag: 0x0204, length: 0, value: vec![] },
        ],
    }
}

#[test]
fn bind_receiver_round_trip() {
    let body = BindReceiver {
        system_id: "rx".to_string(),
        password: "secret".to_string(),
        system_type: "".to_string(),
        interface_version: 0x34,
        addr_ton: 1,
        addr_npi: 1,
        address_range: "^1.*".to_string(),
    };
    assert_eq!(
        round_trip(SmppBody::BindReceiver(body.clone()), 1),
        b"rx\0secret\0\0\x34\x01\x01^1.*\0".to_vec()
    );
    assert_eq!(BindReceiver::decode(&body.encode()), Ok(body));
}

#[test]
fn bind_transmitter_round_trip_with_empty_strings() {
    let body = BindTransmitter {
        system_id: "".to_string(),
        password: "".to_string(),
        system_type: "".to_string(),
        interface_version: 0,
        addr_ton: 0,
        addr_npi: 0,
        address_range: "".to_string(),
    };
    assert_eq!(round_trip(SmppBody::BindTransmitter(body.clone()), 2), vec![0u8; 7]);
    assert_eq!(BindTransmitter::decode(&body.encode()), Ok(body));
}

#[test]
fn bind_transceiver_round_trip() {
    let body = BindTransceiver {
        system_id: "trx".to_string(),
        password: "p".to_string(),
        system_type: "vms".to_string(),
        interface_version: 0x50,
        addr_ton: 255,
        addr_npi: 128,
        address_range: "".to_string(),
    };
    assert_eq!(
        round_trip(SmppBody::BindTransceiver(body.clone()), 3),
        b"trx\0p\0vms\0\x50\xFF\x80\0".to_vec()
    );
    assert_eq!(BindTransceiver::decode(&body.encode()), Ok(body));
}

#[test]
fn bind_responses_round_trip() {
    let rx = BindReceiverResp { system_id: "smsc".to_string() };
    let tx = BindTransmitterResp::new("smsc".to_string());
    let trx = BindTransceiverResp { system_id: "".to_string() };
    assert_eq!(round_trip(SmppBody::BindReceiverResp(rx.clone()), 4), b"smsc\0".to_vec());
    assert_eq!(round_trip(SmppBody::BindTransmitterResp(tx.clone()), 5), b"smsc\0".to_vec());
    assert_eq!(round_trip(SmppBody::BindTransceiverResp(trx.clone()), 6), vec![0u8]);
    assert_eq!(BindReceiverResp::decode(&rx.encode()), Ok(rx));
    assert_eq!(BindTransmitterResp::decode(&tx.encode()), Ok(tx));
    assert_eq!(BindTransceiverResp::decode(&trx.encode()), Ok(trx));
}

#[test]
fn bind_transmitter_resp_new_holds_the_system_id() {
    assert_eq!(BindTransmitterResp::new("smsc".to_string()).system_id, "smsc");
}

#[test]
fn outbind_round_trip() {
    let body = Outbind { system_id: "smsc".to_string(), password: "pw".to_string() };
    assert_eq!(round_trip(SmppBody::Outbind(body.clone()), 7), b"smsc\0pw\0".to_vec());
    assert_eq!(Outbind::decode(&body.encode()), Ok(body));
    assert_eq!(Outbind::decode(b"smsc\0pw"), Err(DecodeError::UnterminatedString));
}

#[test]
fn bodies_without_fields_round_trip() {
    assert_eq!(round_trip(SmppBody::Unbind(Unbind {}), 8), Vec::<u8>::new());
    assert_eq!(round_trip(SmppBody::UnbindResp(UnbindResp {}), 9), Vec::<u8>::new());
    assert_eq!(round_trip(SmppBody::EnquireLink(EnquireLink {}), 10), Vec::<u8>::new());
    assert_eq!(round_trip(SmppBody::EnquireLinkResp(EnquireLinkResp {}), 11), Vec::<u8>::new());
    assert_eq!(round_trip(SmppBody::CancelSmResp(CancelSmResp {}), 12), Vec::<u8>::new());
    assert_eq!(Unbind::decode(&[1, 2, 3]), Ok(Unbind {}));
    assert_eq!(EnquireLinkResp::decode(&[]), Ok(EnquireLinkResp {}));
}

#[test]
fn query_sm_round_trip() {
    let body = QuerySm {
        message_id: "id-1".to_string(),
        source_addr_ton: 1,
        source_addr_npi: 2,
        source_addr: "555".to_string(),
    };
    assert_eq!(round_trip(SmppBody::QuerySm(body.clone()), 13), b"id-1\0\x01\x02555\0".to_vec());
    assert_eq!(QuerySm::decode(&body.encode()), Ok(body));
    assert_eq!(QuerySm::decode(b"id-1\0\x01"), Err(DecodeError::TruncatedBody));
}

#[test]
fn query_sm_resp_round_trip() {
    let body = QuerySmResp {
        message_id: "id-1".to_string(),
        final_date: "".to_string(),
        message_state: 2,
        error_code: 255,
    };
    assert_eq!(round_trip(SmppBody::QuerySmResp(body.clone()), 14), b"id-1\0\0\x02\xFF".to_vec());
    assert_eq!(QuerySmResp::decode(&body.encode()), Ok(body));
    assert_eq!(QuerySmResp::decode(b"id-1\0\0\x02"), Err(DecodeError::TruncatedBody));
}

#[test]
fn submit_sm_round_trip_with_optional_parameters() {
    let body = submit_sm();
    let expected: Vec<u8> = [
        b"CMT\0".to_vec(),
        vec![1, 2],
        b"12345\0".to_vec(),
        vec![3, 4],
        b"67890\0".to_vec(),
        vec![5, 6, 7],
        b"\0".to_vec(),
        b"000001000000000R\0".to_vec(),
        vec![8, 9, 10, 11, 5],
        b"hello".to_vec(),
        vec![0x04, 0x24, 0, 3, 0, 1, 2],
        vec![0x02, 0x04, 0, 0],
    ]
    .concat();
    assert_eq!(round_trip(SmppBody::SubmitSm(body.clone()), 15), expected);
    assert_eq!(SubmitSm::decode(&body.encode()), Ok(body));
}

#[test]
fn submit_sm_round_trip_without_optional_parameters() {
    let mut body = submit_sm();
    body.message_payload = vec![];
    body.sm_length = 0;
    body.short_message = vec![];
    let encoded = round_trip(SmppBody::SubmitSm(body.clone()), 16);
    assert_eq!(encoded.len(), 4 + 2 + 6 + 2 + 6 + 3 + 1 + 17 + 5);
    assert_eq!(SubmitSm::decode(&encoded), Ok(body));
}

#[test]
fn submit_sm_with_the_longest_message() {
    let mut body = submit_sm();
    body.sm_length = 255;
    body.short_message = vec![0xAB; 255];
    body.message_payload = vec![TagLengthValue { tag: 1, length: 300, value: vec![0; 300] }];
    let encoded = round_trip(SmppBody::SubmitSm(body.clone()), 17);
    assert_eq!(SubmitSm::decode(&encoded), Ok(body));
}

#[test]
fn optional_parameter_that_is_cut_short() {
    let mut body = submit_sm();
    body.message_payload = vec![];
    let mandatory = body.encode();
    let mut encoded = mandatory.clone();
    encoded.extend_from_slice(&[0x04, 0x24, 0]);
    assert_eq!(SubmitSm::decode(&encoded), Err(DecodeError::TruncatedTlv));
    let mut encoded = mandatory.clone();
    encoded.extend_from_slice(&[0x04, 0x24, 0, 3, 1, 2]);
    assert_eq!(SubmitSm::decode(&encoded), Err(DecodeError::TruncatedTlv));
    let mut encoded = mandatory.clone();
    encoded.extend_from_slice(&[0x04, 0x24, 0, 1, 9, 0x02]);
    assert_eq!(SubmitSm::decode(&encoded), Err(DecodeError::TruncatedTlv));
    let mut encoded = mandatory;
    encoded.extend_from_slice(&[0x04, 0x24, 0, 1, 9]);
    body.message_payload = vec![TagLengthValue { tag: 0x0424, length: 1, value: vec![9] }];
    assert_eq!(SubmitSm::decode(&encoded), Ok(body));
}

#[test]
fn short_message_that_is_cut_short() {
    let mut body = submit_sm();
    body.message_payload = vec![];
    let mut encoded = body.encode();
    encoded.pop();
    assert_eq!(SubmitSm::decode(&encoded), Err(DecodeError::TruncatedBody));
    assert_eq!(DeliverSm::decode(&encoded), Err(DecodeError::TruncatedBody));
}

#[test]
fn deliver_sm_round_trip() {
    let body = DeliverSm {
        service_type: "".to_string(),
        source_addr_ton: 1,
        source_addr_npi: 1,
        source_addr: "100".to_string(),
        dest_addr_ton: 2,
        dest_addr_npi: 2,
        destination_addr: "200".to_string(),
        esm_class: 4,
        protocol_id: 0,
        priority_flag: 0,
        schedule_delivery_time: "".to_string(),
        validity_period: "".to_string(),
        registered_delivery: 0,
        replace_if_present_flag: 0,
        data_coding: 8,
        sm_default_msg_id: 0,
        sm_length: 2,
        short_message: vec![0, 0xFF],
    };
    assert_eq!(
        round_trip(SmppBody::DeliverSm(body.clone()), 18),
        b"\0\x01\x01100\0\x02\x02200\0\x04\0\0\0\0\0\0\x08\0\x02\0\xFF".to_vec()
    );
    assert_eq!(DeliverSm::decode(&body.encode()), Ok(body));
}

#[test]
fn message_id_responses_round_trip() {
    let submit = SubmitSmResp { message_id: "a1".to_string() };
    let deliver = DeliverSmResp { message_id: "".to_string() };
    let replace = ReplaceSmResp { message_id: "zz".to_string() };
    assert_eq!(round_trip(SmppBody::SubmitSmResp(submit.clone()), 19), b"a1\0".to_vec());
    assert_eq!(round_trip(SmppBody::DeliverSmResp(deliver.clone()), 20), b"\0".to_vec());
    assert_eq!(round_trip(SmppBody::ReplaceSmResp(replace.clone()), 21), b"zz\0".to_vec());
    assert_eq!(SubmitSmResp::decode(&submit.encode()), Ok(submit));
    assert_eq!(DeliverSmResp::decode(&deliver.encode()), Ok(deliver));
    assert_eq!(ReplaceSmResp::decode(&replace.encode()), Ok(replace));
}

#[test]
fn replace_sm_round_trip() {
    let body = ReplaceSm {
        message_id: "m".to_string(),
        source_addr_ton: 1,
        source_addr_npi: 2,
        source_addr: "s".to_string(),
        schedule_delivery_time: "t".to_string(),
        validity_period: "v".to_string(),
        registered_delivery: 3,
        sm_default_msg_id: 4,
        sm_length: 3,
        short_message: b"new".to_vec(),
    };
    assert_eq!(
        round_trip(SmppBody::ReplaceSm(body.clone()), 22),
        b"m\0\x01\x02s\0t\0v\0\x03\x04\x03new".to_vec()
    );
    assert_eq!(ReplaceSm::decode(&body.encode()), Ok(body.clone()));
    assert!(body.is_well_formed());
    assert!(!ReplaceSm { sm_length: 4, ..body }.is_well_formed());
}

#[test]
fn cancel_sm_round_trip() {
    let body = CancelSm {
        service_type: "".to_string(),
        message_id: "m7".to_string(),
        source_addr_ton: 1,
        source_addr_npi: 2,
        source_addr: "a".to_string(),
        dest_addr_ton: 3,
        dest_addr_npi: 4,
        destination_addr: "b".to_string(),
    };
    assert_eq!(
        round_trip(SmppBody::CancelSm(body.clone()), 23),
        b"\0m7\0\x01\x02a\0\x03\x04b\0".to_vec()
    );
    assert_eq!(CancelSm::decode(&body.encode()), Ok(body));
}

fn submit_multi(dest_address: Vec<DestinationAddress>) -> SubmitMulti {
    SubmitMulti {
        service_type: "".to_string(),
        source_addr_ton: 1,
        source_addr_npi: 2,
        source_addr: "src".to_string(),
        number_of_dests: dest_address.len() as u8,
        dest_address,
        esm_class: 0,
        protocol_id: 0,
        priority_flag: 1,
        schedule_delivery_time: "".to_string(),
        validity_period: "".to_string(),
        registered_delivery: 0,
        replace_if_present_flag: 0,
        data_coding: 0,
        sm_default_msg_id: 0,
        sm_length: 2,
        short_message: b"hi".to_vec(),
    }
}

#[test]
fn submit_multi_round_trip() {
    let body = submit_multi(vec![
        DestinationAddress { dest_addr_ton: 1, dest_addr_npi: 1, destination_addr: "111".to_string() },
        DestinationAddress { dest_addr_ton: 2, dest_addr_npi: 0, destination_addr: "".to_string() },
    ]);
    assert_eq!(
        round_trip(SmppBody::SubmitMulti(body.clone()), 24),
        b"\0\x01\x02src\0\x02\x01\x01111\0\x02\0\0\0\0\x01\0\0\0\0\0\0\x02hi".to_vec()
    );
    assert_eq!(SubmitMulti::decode(&body.encode()), Ok(body));
}

#[test]
fn submit_multi_round_trip_without_destinations() {
    let body = submit_multi(vec![]);
    let encoded = round_trip(SmppBody::SubmitMulti(body.clone()), 25);
    assert_eq!(encoded, b"\0\x01\x02src\0\0\0\0\x01\0\0\0\0\0\0\x02hi".to_vec());
    assert_eq!(SubmitMulti::decode(&encoded), Ok(body));
}

#[test]
fn submit_multi_count_must_be_the_number_of_destinations() {
    let mut body = submit_multi(vec![DestinationAddress {
        dest_addr_ton: 1,
        dest_addr_npi: 1,
        destination_addr: "111".to_string(),
    }]);
    assert!(body.is_well_formed());
    body.number_of_dests = 2;
    assert!(!body.is_well_formed());
    assert!(!SmppBody::SubmitMulti(body).is_well_formed());
}

#[test]
fn submit_multi_that_announces_more_destinations_than_it_holds() {
    assert_eq!(
        SubmitMulti::decode(b"\0\x01\x02src\0\x02\x01\x01111\0"),
        Err(DecodeError::TruncatedBody)
    );
    assert_eq!(
        SubmitMulti::decode(b"\0\x01\x02src\0\x02\x01\x01111\0\x02\0zz"),
        Err(DecodeError::UnterminatedString)
    );
}

#[test]
fn submit_multi_resp_round_trip() {
    let body = SubmitMultiResp {
        message_id: "mm".to_string(),
        no_unsuccess: 2,
        unsuccess_smes: vec![
            UnsuccessfulDelivery {
                dest_addr_ton: 1,
                dest_addr_npi: 2,
                destination_addr: "x".to_string(),
                error_status_code: 0x0000_000B,
            },
            UnsuccessfulDelivery {
                dest_addr_ton: 3,
                dest_addr_npi: 4,
                destination_addr: "".to_string(),
                error_status_code: -1,
            },
        ],
    };
    assert_eq!(
        round_trip(SmppBody::SubmitMultiResp(body.clone()), 26),
        b"mm\0\x02\x01\x02x\0\0\0\0\x0B\x03\x04\0\xFF\xFF\xFF\xFF".to_vec()
    );
    assert_eq!(SubmitMultiResp::decode(&body.encode()), Ok(body.clone()));
    assert!(body.is_well_formed());
    assert!(!SubmitMultiResp { no_unsuccess: 1, ..body }.is_well_formed());
}

#[test]
fn submit_multi_resp_without_failures_and_cut_short() {
    let body = SubmitMultiResp { message_id: "".to_string(), no_unsuccess: 0, unsuccess_smes: vec![] };
    assert_eq!(round_trip(SmppBody::SubmitMultiResp(body.clone()), 27), vec![0u8, 0]);
    assert_eq!(
        SubmitMultiResp::decode(b"mm\0\x01\x01\x02x\0\0\0\0"),
        Err(DecodeError::TruncatedBody)
    );
    assert_eq!(SubmitMultiResp::decode(b"mm\0"), Err(DecodeError::TruncatedBody));
}

#[test]
fn records_are_read_where_the_cursor_stands() {
    let buf = b"??\x01\x02abc\0\x03\x04\0tail".to_vec();
    let mut offset: usize = 2;
    assert_eq!(
        DestinationAddress::read(&buf, &mut offset),
        Ok(DestinationAddress { dest_addr_ton: 1, dest_addr_npi: 2, destination_addr: "abc".to_string() })
    );
    assert_eq!(offset, 8);
    assert_eq!(
        DestinationAddress::read(&buf, &mut offset),
        Ok(DestinationAddress { dest_addr_ton: 3, dest_addr_npi: 4, destination_addr: "".to_string() })
    );
    assert_eq!(offset, 11);
    assert_eq!(DestinationAddress::read(&buf, &mut offset), Err(DecodeError::UnterminatedString));
    assert_eq!(offset, 11);
    let mut out: Vec<u8> = vec![9];
    DestinationAddress { dest_addr_ton: 1, dest_addr_npi: 2, destination_addr: "abc".to_string() }
        .write(&mut out);
    assert_eq!(out, b"\x09\x01\x02abc\0".to_vec());
}

#[test]
fn optional_parameter_on_the_wire() {
    let parameter = TagLengthValue { tag: 0x1234, length: 2, value: vec![0xAA, 0xBB] };
    let mut out: Vec<u8> = Vec::new();
    parameter.write(&mut out);
    assert_eq!(out, vec![0x12u8, 0x34, 0, 2, 0xAA, 0xBB]);
    let mut offset: usize = 0;
    assert_eq!(TagLengthValue::read(&out, &mut offset), Ok(parameter.clone()));
    assert_eq!(offset, 6);
    assert_eq!(TagLengthValue::read(&out, &mut offset), Err(DecodeError::TruncatedTlv));
    assert!(parameter.is_well_formed());
    assert!(!TagLengthValue { length: 3, ..parameter }.is_well_formed());
}
