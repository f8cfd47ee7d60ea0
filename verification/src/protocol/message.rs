//! The bodies that submit, deliver, replace, cancel and query a single message,
//! with their responses.

use crate::protocol::tlv::{
    lemma_parse_tlvs_wire, lemma_parsed_tlvs, parse_tlvs, read_tlvs, tlv_views,
    tlvs_are_well_formed, tlvs_wf, tlvs_wire, write_tlvs, TagLengthValue, TlvView,
};
use crate::wire::{
    and_then, byte, c_text, cstring, lemma_parse_cstring, lemma_parse_cstring_regroup,
    lemma_parse_octets, lemma_parse_u8, lemma_parsed_cstring, lemma_parsed_octets,
    lemma_parsed_u8, lemma_same_bytes_regroup, lemma_tail_start, parse_cstring, parse_octets,
    parse_u8, read_cstring, read_octets, read_u8, same_bytes, write_cstring, write_octets,
    write_u8, DecodeError, Parsed,
};
use vstd::prelude::*;

verus! {

/// What a query for the state of a message holds, as plain values.
pub struct QuerySmView {
    pub message_id: Seq<char>,
    pub source_addr_ton: u8,
    pub source_addr_npi: u8,
    pub source_addr: Seq<char>,
}

impl QuerySmView {
    /// A query on the wire: its fields in this order.
    pub open spec fn wire(self) -> Seq<u8> {
        cstring(self.message_id)
            + byte(self.source_addr_ton)
            + byte(self.source_addr_npi)
            + cstring(self.source_addr)
    }

    /// Reads a query off the input, field by field; the first field that
    /// cannot be read gives the error.
    #[verifier::opaque]
    pub open spec fn parse(input: Seq<u8>) -> Parsed<QuerySmView> {
        and_then(parse_cstring(input), |message_id: Seq<char>, input: Seq<u8>|
        and_then(parse_u8(input), |source_addr_ton: u8, input: Seq<u8>|
        and_then(parse_u8(input), |source_addr_npi: u8, input: Seq<u8>|
        and_then(parse_cstring(input), |source_addr: Seq<char>, input: Seq<u8>|
        Ok(
            (
                QuerySmView {
                    message_id,
                    source_addr_ton,
                    source_addr_npi,
                    source_addr,
                },
                input,
            ),
        )))))
    }

    /// True of a value that comes back from the wire as it went: no string holds a NUL
    /// character.
    pub open spec fn valid(self) -> bool {
        &&& c_text(self.message_id)
        &&& c_text(self.source_addr)
    }

    /// A valid value that was written is read back, and the input goes on with
    /// what stood behind it.
    pub proof fn lemma_parse_wire(self, rest: Seq<u8>)
        requires
            self.valid(),
        ensures
            Self::parse(self.wire() + rest) == Ok::<(QuerySmView, Seq<u8>), DecodeError>(
                (self, rest),
            ),
    {
        broadcast use {lemma_parse_cstring_regroup, lemma_parse_cstring, lemma_parse_u8};

        reveal(QuerySmView::parse);
    }

    /// A value that is read is valid, and its bytes stood at the front of the
    /// input.
    pub proof fn lemma_wire_parse(input: Seq<u8>)
        ensures
            Self::parse(input) matches Ok((value, rest)) ==> value.valid() && input
                == value.wire() + rest,
    {
        broadcast use {lemma_parsed_cstring, lemma_parsed_u8, lemma_same_bytes_regroup};

        reveal(QuerySmView::parse);
        if let Ok((value, rest)) = Self::parse(input) {
            assert(same_bytes(value.wire() + rest, input));
        }
    }
}

/// What the response to a query holds, as plain values.
pub struct QuerySmRespView {
    pub message_id: Seq<char>,
    pub final_date: Seq<char>,
    pub message_state: u8,
    pub error_code: u8,
}

impl QuerySmRespView {
    /// A query response on the wire: its fields in this order.
    pub open spec fn wire(self) -> Seq<u8> {
        cstring(self.message_id)
            + cstring(self.final_date)
            + byte(self.message_state)
            + byte(self.error_code)
    }

    /// Reads a query response off the input, field by field; the first field that
    /// cannot be read gives the error.
    #[verifier::opaque]
    pub open spec fn parse(input: Seq<u8>) -> Parsed<QuerySmRespView> {
        and_then(parse_cstring(input), |message_id: Seq<char>, input: Seq<u8>|
        and_then(parse_cstring(input), |final_date: Seq<char>, input: Seq<u8>|
        and_then(parse_u8(input), |message_state: u8, input: Seq<u8>|
        and_then(parse_u8(input), |error_code: u8, input: Seq<u8>|
        Ok(
            (
                QuerySmRespView {
                    message_id,
                    final_date,
                    message_state,
                    error_code,
                },
                input,
            ),
        )))))
    }

    /// True of a value that comes back from the wire as it went: no string holds a NUL
    /// character.
    pub open spec fn valid(self) -> bool {
        &&& c_text(self.message_id)
        &&& c_text(self.final_date)
    }

    /// A valid value that was written is read back, and the input goes on with
    /// what stood behind it.
    pub proof fn lemma_parse_wire(self, rest: Seq<u8>)
        requires
            self.valid(),
        ensures
            Self::parse(self.wire() + rest) == Ok::<(QuerySmRespView, Seq<u8>), DecodeError>(
                (self, rest),
            ),
    {
        broadcast use {lemma_parse_cstring_regroup, lemma_parse_cstring, lemma_parse_u8};

        reveal(QuerySmRespView::parse);
    }

    /// A value that is read is valid, and its bytes stood at the front of the
    /// input.
    pub proof fn lemma_wire_parse(input: Seq<u8>)
        ensures
            Self::parse(input) matches Ok((value, rest)) ==> value.valid() && input
                == value.wire() + rest,
    {
        broadcast use {lemma_parsed_cstring, lemma_parsed_u8, lemma_same_bytes_regroup};

        reveal(QuerySmRespView::parse);
        if let Ok((value, rest)) = Self::parse(input) {
            assert(same_bytes(value.wire() + rest, input));
        }
    }
}

/// What a submitted message holds, as plain values.
pub struct SubmitSmView {
    pub service_type: Seq<char>,
    pub source_addr_ton: u8,
    pub source_addr_npi: u8,
    pub source_addr: Seq<char>,
    pub dest_addr_ton: u8,
    pub dest_addr_npi: u8,
    pub destination_addr: Seq<char>,
    pub esm_class: u8,
    pub protocol_id: u8,
    pub priority_flag: u8,
    pub schedule_delivery_time: Seq<char>,
    pub validity_period: Seq<char>,
    pub registered_delivery: u8,
    pub replace_if_present_flag: u8,
    pub data_coding: u8,
    pub sm_default_msg_id: u8,
    pub sm_length: u8,
    pub short_message: Seq<u8>,
    pub message_payload: Seq<TlvView>,
}

impl SubmitSmView {
    /// True when each count is the length of what it counts, in the body and
    /// in every optional parameter.
    pub open spec fn wf(self) -> bool {
        &&& self.short_message.len() == self.sm_length
        &&& tlvs_wf(self.message_payload)
    }

    /// A submitted message on the wire: its fields in this order.
    pub open spec fn wire(self) -> Seq<u8> {
        cstring(self.service_type)
            + byte(self.source_addr_ton)
            + byte(self.source_addr_npi)
            + cstring(self.source_addr)
            + byte(self.dest_addr_ton)
            + byte(self.dest_addr_npi)
            + cstring(self.destination_addr)
            + byte(self.esm_class)
            + byte(self.protocol_id)
            + byte(self.priority_flag)
            + cstring(self.schedule_delivery_time)
            + cstring(self.validity_period)
            + byte(self.registered_delivery)
            + byte(self.replace_if_present_flag)
            + byte(self.data_coding)
            + byte(self.sm_default_msg_id)
            + byte(self.sm_length)
            + self.short_message
            + tlvs_wire(self.message_payload)
    }

    /// Reads a submitted message off the input, field by field; the first field that
    /// cannot be read gives the error.
    #[verifier::opaque]
    pub open spec fn parse(input: Seq<u8>) -> Parsed<SubmitSmView> {
        and_then(parse_cstring(input), |service_type: Seq<char>, input: Seq<u8>|
        and_then(parse_u8(input), |source_addr_ton: u8, input: Seq<u8>|
        and_then(parse_u8(input), |source_addr_npi: u8, input: Seq<u8>|
        and_then(parse_cstring(input), |source_addr: Seq<char>, input: Seq<u8>|
        and_then(parse_u8(input), |dest_addr_ton: u8, input: Seq<u8>|
        and_then(parse_u8(input), |dest_addr_npi: u8, input: Seq<u8>|
        and_then(parse_cstring(input), |destination_addr: Seq<char>, input: Seq<u8>|
        and_then(parse_u8(input), |esm_class: u8, input: Seq<u8>|
        and_then(parse_u8(input), |protocol_id: u8, input: Seq<u8>|
        and_then(parse_u8(input), |priority_flag: u8, input: Seq<u8>|
        and_then(parse_cstring(input), |schedule_delivery_time: Seq<char>, input: Seq<u8>|
        and_then(parse_cstring(input), |validity_period: Seq<char>, input: Seq<u8>|
        and_then(parse_u8(input), |registered_delivery: u8, input: Seq<u8>|
        and_then(parse_u8(input), |replace_if_present_flag: u8, input: Seq<u8>|
        and_then(parse_u8(input), |data_coding: u8, input: Seq<u8>|
        and_then(parse_u8(input), |sm_default_msg_id: u8, input: Seq<u8>|
        and_then(parse_u8(input), |sm_length: u8, input: Seq<u8>|
        and_then(parse_octets(input, sm_length as int), |short_message: Seq<u8>, input: Seq<u8>|
        and_then(parse_tlvs(input), |message_payload: Seq<TlvView>, input: Seq<u8>|
        Ok(
            (
                SubmitSmView {
                    service_type,
                    source_addr_ton,
                    source_addr_npi,
                    source_addr,
                    dest_addr_ton,
                    dest_addr_npi,
                    destination_addr,
                    esm_class,
                    protocol_id,
                    priority_flag,
                    schedule_delivery_time,
                    validity_period,
                    registered_delivery,
                    replace_if_present_flag,
                    data_coding,
                    sm_default_msg_id,
                    sm_length,
                    short_message,
                    message_payload,
                },
                input,
            ),
        ))))))))))))))))))))
    }

    /// True of a value that comes back from the wire as it went: no string holds a NUL
    /// character, and every count is right.
    pub open spec fn valid(self) -> bool {
        &&& self.wf()
        &&& c_text(self.service_type)
        &&& c_text(self.source_addr)
        &&& c_text(self.destination_addr)
        &&& c_text(self.schedule_delivery_time)
        &&& c_text(self.validity_period)
    }

    /// A valid value that was written is read back, and nothing is left of the
    /// input.
    pub proof fn lemma_parse_wire(self)
        requires
            self.valid(),
        ensures
            Self::parse(self.wire()) == Ok::<(SubmitSmView, Seq<u8>), DecodeError>(
                (self, Seq::empty()),
            ),
    {
        broadcast use {
            lemma_parse_cstring_regroup, lemma_parse_cstring, lemma_parse_u8,
            lemma_parse_octets, lemma_parse_tlvs_wire,
        };

        reveal(SubmitSmView::parse);
    }

    /// A value that is read is valid and used the input up: the input was its
    /// bytes.
    pub proof fn lemma_wire_parse(input: Seq<u8>)
        ensures
            Self::parse(input) matches Ok((value, rest)) ==> value.valid() && rest.len() == 0
                && input == value.wire(),
    {
        broadcast use {
            lemma_parsed_cstring, lemma_parsed_u8, lemma_parsed_octets, lemma_parsed_tlvs,
            lemma_same_bytes_regroup,
        };

        reveal(SubmitSmView::parse);
        if let Ok((value, rest)) = Self::parse(input) {
            assert(same_bytes(value.wire(), input));
        }
    }
}

/// What a delivered message holds, as plain values.
pub struct DeliverSmView {
    pub service_type: Seq<char>,
    pub source_addr_ton: u8,
    pub source_addr_npi: u8,
    pub source_addr: Seq<char>,
    pub dest_addr_ton: u8,
    pub dest_addr_npi: u8,
    pub destination_addr: Seq<char>,
    pub esm_class: u8,
    pub protocol_id: u8,
    pub priority_flag: u8,
    pub schedule_delivery_time: Seq<char>,
    pub validity_period: Seq<char>,
    pub registered_delivery: u8,
    pub replace_if_present_flag: u8,
    pub data_coding: u8,
    pub sm_default_msg_id: u8,
    pub sm_length: u8,
    pub short_message: Seq<u8>,
}

impl DeliverSmView {
    /// True when each count is the length of what it counts.
    pub open spec fn wf(self) -> bool {
        &&& self.short_message.len() == self.sm_length
    }

    /// A delivered message on the wire: its fields in this order.
    pub open spec fn wire(self) -> Seq<u8> {
        cstring(self.service_type)
            + byte(self.source_addr_ton)
            + byte(self.source_addr_npi)
            + cstring(self.source_addr)
            + byte(self.dest_addr_ton)
            + byte(self.dest_addr_npi)
            + cstring(self.destination_addr)
            + byte(self.esm_class)
            + byte(self.protocol_id)
            + byte(self.priority_flag)
            + cstring(self.schedule_delivery_time)
            + cstring(self.validity_period)
            + byte(self.registered_delivery)
            + byte(self.replace_if_present_flag)
            + byte(self.data_coding)
            + byte(self.sm_default_msg_id)
            + byte(self.sm_length)
            + self.short_message
    }

    /// Reads a delivered message off the input, field by field; the first field that
    /// cannot be read gives the error.
    #[verifier::opaque]
    pub open spec fn parse(input: Seq<u8>) -> Parsed<DeliverSmView> {
        and_then(parse_cstring(input), |service_type: Seq<char>, input: Seq<u8>|
        and_then(parse_u8(input), |source_addr_ton: u8, input: Seq<u8>|
        and_then(parse_u8(input), |source_addr_npi: u8, input: Seq<u8>|
        and_then(parse_cstring(input), |source_addr: Seq<char>, input: Seq<u8>|
        and_then(parse_u8(input), |dest_addr_ton: u8, input: Seq<u8>|
        and_then(parse_u8(input), |dest_addr_npi: u8, input: Seq<u8>|
        and_then(parse_cstring(input), |destination_addr: Seq<char>, input: Seq<u8>|
        and_then(parse_u8(input), |esm_class: u8, input: Seq<u8>|
        and_then(parse_u8(input), |protocol_id: u8, input: Seq<u8>|
        and_then(parse_u8(input), |priority_flag: u8, input: Seq<u8>|
        and_then(parse_cstring(input), |schedule_delivery_time: Seq<char>, input: Seq<u8>|
        and_then(parse_cstring(input), |validity_period: Seq<char>, input: Seq<u8>|
        and_then(parse_u8(input), |registered_delivery: u8, input: Seq<u8>|
        and_then(parse_u8(input), |replace_if_present_flag: u8, input: Seq<u8>|
        and_then(parse_u8(input), |data_coding: u8, input: Seq<u8>|
        and_then(parse_u8(input), |sm_default_msg_id: u8, input: Seq<u8>|
        and_then(parse_u8(input), |sm_length: u8, input: Seq<u8>|
        and_then(parse_octets(input, sm_length as int), |short_message: Seq<u8>, input: Seq<u8>|
        Ok(
            (
                DeliverSmView {
                    service_type,
                    source_addr_ton,
                    source_addr_npi,
                    source_addr,
                    dest_addr_ton,
                    dest_addr_npi,
                    destination_addr,
                    esm_class,
                    protocol_id,
                    priority_flag,
                    schedule_delivery_time,
                    validity_period,
                    registered_delivery,
                    replace_if_present_flag,
                    data_coding,
                    sm_default_msg_id,
                    sm_length,
                    short_message,
                },
                input,
            ),
        )))))))))))))))))))
    }

    /// True of a value that comes back from the wire as it went: no string holds a NUL
    /// character, and every count is right.
    pub open spec fn valid(self) -> bool {
        &&& self.wf()
        &&& c_text(self.service_type)
        &&& c_text(self.source_addr)
        &&& c_text(self.destination_addr)
        &&& c_text(self.schedule_delivery_time)
        &&& c_text(self.validity_period)
    }

    /// A valid value that was written is read back, and the input goes on with
    /// what stood behind it.
    pub proof fn lemma_parse_wire(self, rest: Seq<u8>)
        requires
            self.valid(),
        ensures
            Self::parse(self.wire() + rest) == Ok::<(DeliverSmView, Seq<u8>), DecodeError>(
                (self, rest),
            ),
    {
        broadcast use {
            lemma_parse_cstring_regroup, lemma_parse_cstring, lemma_parse_u8,
            lemma_parse_octets,
        };

        reveal(DeliverSmView::parse);
    }

    /// A value that is read is valid, and its bytes stood at the front of the
    /// input.
    pub proof fn lemma_wire_parse(input: Seq<u8>)
        ensures
            Self::parse(input) matches Ok((value, rest)) ==> value.valid() && input
                == value.wire() + rest,
    {
        broadcast use {
            lemma_parsed_cstring, lemma_parsed_u8, lemma_parsed_octets,
            lemma_same_bytes_regroup,
        };

        reveal(DeliverSmView::parse);
        if let Ok((value, rest)) = Self::parse(input) {
            assert(same_bytes(value.wire() + rest, input));
        }
    }
}

/// What a request to replace a message holds, as plain values.
pub struct ReplaceSmView {
    pub message_id: Seq<char>,
    pub source_addr_ton: u8,
    pub source_addr_npi: u8,
    pub source_addr: Seq<char>,
    pub schedule_delivery_time: Seq<char>,
    pub validity_period: Seq<char>,
    pub registered_delivery: u8,
    pub sm_default_msg_id: u8,
    pub sm_length: u8,
    pub short_message: Seq<u8>,
}

impl ReplaceSmView {
    /// True when each count is the length of what it counts.
    pub open spec fn wf(self) -> bool {
        &&& self.short_message.len() == self.sm_length
    }

    /// A replace request on the wire: its fields in this order.
    pub open spec fn wire(self) -> Seq<u8> {
        cstring(self.message_id)
            + byte(self.source_addr_ton)
            + byte(self.source_addr_npi)
            + cstring(self.source_addr)
            + cstring(self.schedule_delivery_time)
            + cstring(self.validity_period)
            + byte(self.registered_delivery)
            + byte(self.sm_default_msg_id)
            + byte(self.sm_length)
            + self.short_message
    }

    /// Reads a replace request off the input, field by field; the first field that
    /// cannot be read gives the error.
    #[verifier::opaque]
    pub open spec fn parse(input: Seq<u8>) -> Parsed<ReplaceSmView> {
        and_then(parse_cstring(input), |message_id: Seq<char>, input: Seq<u8>|
        and_then(parse_u8(input), |source_addr_ton: u8, input: Seq<u8>|
        and_then(parse_u8(input), |source_addr_npi: u8, input: Seq<u8>|
        and_then(parse_cstring(input), |source_addr: Seq<char>, input: Seq<u8>|
        and_then(parse_cstring(input), |schedule_delivery_time: Seq<char>, input: Seq<u8>|
        and_then(parse_cstring(input), |validity_period: Seq<char>, input: Seq<u8>|
        and_then(parse_u8(input), |registered_delivery: u8, input: Seq<u8>|
        and_then(parse_u8(input), |sm_default_msg_id: u8, input: Seq<u8>|
        and_then(parse_u8(input), |sm_length: u8, input: Seq<u8>|
        and_then(parse_octets(input, sm_length as int), |short_message: Seq<u8>, input: Seq<u8>|
        Ok(
            (
                ReplaceSmView {
                    message_id,
                    source_addr_ton,
                    source_addr_npi,
                    source_addr,
                    schedule_delivery_time,
                    validity_period,
                    registered_delivery,
                    sm_default_msg_id,
                    sm_length,
                    short_message,
                },
                input,
            ),
        )))))))))))
    }

    /// True of a value that comes back from the wire as it went: no string holds a NUL
    /// character, and every count is right.
    pub open spec fn valid(self) -> bool {
        &&& self.wf()
        &&& c_text(self.message_id)
        &&& c_text(self.source_addr)
        &&& c_text(self.schedule_delivery_time)
        &&& c_text(self.validity_period)
    }

    /// A valid value that was written is read back, and the input goes on with
    /// what stood behind it.
    pub proof fn lemma_parse_wire(self, rest: Seq<u8>)
        requires
            self.valid(),
        ensures
            Self::parse(self.wire() + rest) == Ok::<(ReplaceSmView, Seq<u8>), DecodeError>(
                (self, rest),
            ),
    {
        broadcast use {
            lemma_parse_cstring_regroup, lemma_parse_cstring, lemma_parse_u8,
            lemma_parse_octets,
        };

        reveal(ReplaceSmView::parse);
    }

    /// A value that is read is valid, and its bytes stood at the front of the
    /// input.
    pub proof fn lemma_wire_parse(input: Seq<u8>)
        ensures
            Self::parse(input) matches Ok((value, rest)) ==> value.valid() && input
                == value.wire() + rest,
    {
        broadcast use {
            lemma_parsed_cstring, lemma_parsed_u8, lemma_parsed_octets,
            lemma_same_bytes_regroup,
        };

        reveal(ReplaceSmView::parse);
        if let Ok((value, rest)) = Self::parse(input) {
            assert(same_bytes(value.wire() + rest, input));
        }
    }
}

/// What a request to cancel a message holds, as plain values.
pub struct CancelSmView {
    pub service_type: Seq<char>,
    pub message_id: Seq<char>,
    pub source_addr_ton: u8,
    pub source_addr_npi: u8,
    pub source_addr: Seq<char>,
    pub dest_addr_ton: u8,
    pub dest_addr_npi: u8,
    pub destination_addr: Seq<char>,
}

impl CancelSmView {
    /// A cancel request on the wire: its fields in this order.
    pub open spec fn wire(self) -> Seq<u8> {
        cstring(self.service_type)
            + cstring(self.message_id)
            + byte(self.source_addr_ton)
            + byte(self.source_addr_npi)
            + cstring(self.source_addr)
            + byte(self.dest_addr_ton)
            + byte(self.dest_addr_npi)
            + cstring(self.destination_addr)
    }

    /// Reads a cancel request off the input, field by field; the first field that
    /// cannot be read gives the error.
    #[verifier::opaque]
    pub open spec fn parse(input: Seq<u8>) -> Parsed<CancelSmView> {
        and_then(parse_cstring(input), |service_type: Seq<char>, input: Seq<u8>|
        and_then(parse_cstring(input), |message_id: Seq<char>, input: Seq<u8>|
        and_then(parse_u8(input), |source_addr_ton: u8, input: Seq<u8>|
        and_then(parse_u8(input), |source_addr_npi: u8, input: Seq<u8>|
        and_then(parse_cstring(input), |source_addr: Seq<char>, input: Seq<u8>|
        and_then(parse_u8(input), |dest_addr_ton: u8, input: Seq<u8>|
        and_then(parse_u8(input), |dest_addr_npi: u8, input: Seq<u8>|
        and_then(parse_cstring(input), |destination_addr: Seq<char>, input: Seq<u8>|
        Ok(
            (
                CancelSmView {
                    service_type,
                    message_id,
                    source_addr_ton,
                    source_addr_npi,
                    source_addr,
                    dest_addr_ton,
                    dest_addr_npi,
                    destination_addr,
                },
                input,
            ),
        )))))))))
    }

    /// True of a value that comes back from the wire as it went: no string holds a NUL
    /// character.
    pub open spec fn valid(self) -> bool {
        &&& c_text(self.service_type)
        &&& c_text(self.message_id)
        &&& c_text(self.source_addr)
        &&& c_text(self.destination_addr)
    }

    /// A valid value that was written is read back, and the input goes on with
    /// what stood behind it.
    pub proof fn lemma_parse_wire(self, rest: Seq<u8>)
        requires
            self.valid(),
        ensures
            Self::parse(self.wire() + rest) == Ok::<(CancelSmView, Seq<u8>), DecodeError>(
                (self, rest),
            ),
    {
        broadcast use {lemma_parse_cstring_regroup, lemma_parse_cstring, lemma_parse_u8};

        reveal(CancelSmView::parse);
    }

    /// A value that is read is valid, and its bytes stood at the front of the
    /// input.
    pub proof fn lemma_wire_parse(input: Seq<u8>)
        ensures
            Self::parse(input) matches Ok((value, rest)) ==> value.valid() && input
                == value.wire() + rest,
    {
        broadcast use {lemma_parsed_cstring, lemma_parsed_u8, lemma_same_bytes_regroup};

        reveal(CancelSmView::parse);
        if let Ok((value, rest)) = Self::parse(input) {
            assert(same_bytes(value.wire() + rest, input));
        }
    }
}

/// What a response that names a message holds, as plain values.
pub struct MessageIdView {
    pub message_id: Seq<char>,
}

impl MessageIdView {
    /// A response that names a message on the wire: its fields in this order.
    pub open spec fn wire(self) -> Seq<u8> {
        cstring(self.message_id)
    }

    /// Reads a response that names a message off the input, field by field; the first field that
    /// cannot be read gives the error.
    #[verifier::opaque]
    pub open spec fn parse(input: Seq<u8>) -> Parsed<MessageIdView> {
        and_then(parse_cstring(input), |message_id: Seq<char>, input: Seq<u8>|
        Ok((MessageIdView { message_id }, input)))
    }

    /// True of a value that comes back from the wire as it went: no string holds a NUL
    /// character.
    pub open spec fn valid(self) -> bool {
        &&& c_text(self.message_id)
    }

    /// A valid value that was written is read back, and the input goes on with
    /// what stood behind it.
    pub proof fn lemma_parse_wire(self, rest: Seq<u8>)
        requires
            self.valid(),
        ensures
            Self::parse(self.wire() + rest) == Ok::<(MessageIdView, Seq<u8>), DecodeError>(
                (self, rest),
            ),
    {
        broadcast use {lemma_parse_cstring};

        reveal(MessageIdView::parse);
    }

    /// A value that is read is valid, and its bytes stood at the front of the
    /// input.
    pub proof fn lemma_wire_parse(input: Seq<u8>)
        ensures
            Self::parse(input) matches Ok((value, rest)) ==> value.valid() && input
                == value.wire() + rest,
    {
        broadcast use {lemma_parsed_cstring};

        reveal(MessageIdView::parse);
        if let Ok((value, rest)) = Self::parse(input) {
            assert(same_bytes(value.wire() + rest, input));
        }
    }
}

/// Asks for the state of a message that was submitted.
#[derive(Debug, Clone, PartialEq, Eq)]
pub struct QuerySm {
    pub message_id: String,
    pub source_addr_ton: u8,
    pub source_addr_npi: u8,
    pub source_addr: String,
}

impl View for QuerySm {
    type V = QuerySmView;

    open spec fn view(&self) -> QuerySmView {
        QuerySmView {
            message_id: self.message_id@,
            source_addr_ton: self.source_addr_ton,
            source_addr_npi: self.source_addr_npi,
            source_addr: self.source_addr@,
        }
    }
}

impl QuerySm {
    /// The bytes of the body.
    pub fn encode(&self) -> (buf: Vec<u8>)
        ensures
            buf@ == self@.wire(),
    {
        let mut buf = Vec::new();
        write_cstring(&mut buf, self.message_id.as_str());
        write_u8(&mut buf, self.source_addr_ton);
        write_u8(&mut buf, self.source_addr_npi);
        write_cstring(&mut buf, self.source_addr.as_str());
        assert(buf@ =~= self@.wire());
        buf
    }

    /// Reads the body from the start of `buf`; bytes behind the last field are
    /// left unread.
    pub fn decode(buf: &[u8]) -> (r: Result<Self, DecodeError>)
        ensures
            match QuerySmView::parse(buf@) {
                Ok((body, _)) => r matches Ok(b) && b@ == body,
                Err(e) => r == Err::<Self, DecodeError>(e),
            },
    {
        broadcast use lemma_tail_start;

        proof {
            reveal(QuerySmView::parse);
        }
        let mut offset: usize = 0;
        let message_id = read_cstring(buf, &mut offset)?;
        let source_addr_ton = read_u8(buf, &mut offset)?;
        let source_addr_npi = read_u8(buf, &mut offset)?;
        let source_addr = read_cstring(buf, &mut offset)?;
        Ok(QuerySm { message_id, source_addr_ton, source_addr_npi, source_addr })
    }
}

/// Answers a [`QuerySm`].
#[derive(Debug, Clone, PartialEq, Eq)]
pub struct QuerySmResp {
    pub message_id: String,
    pub final_date: String,
    pub message_state: u8,
    pub error_code: u8,
}

impl View for QuerySmResp {
    type V = QuerySmRespView;

    open spec fn view(&self) -> QuerySmRespView {
        QuerySmRespView {
            message_id: self.message_id@,
            final_date: self.final_date@,
            message_state: self.message_state,
            error_code: self.error_code,
        }
    }
}

impl QuerySmResp {
    /// The bytes of the body.
    pub fn encode(&self) -> (buf: Vec<u8>)
        ensures
            buf@ == self@.wire(),
    {
        let mut buf = Vec::new();
        write_cstring(&mut buf, self.message_id.as_str());
        write_cstring(&mut buf, self.final_date.as_str());
        write_u8(&mut buf, self.message_state);
        write_u8(&mut buf, self.error_code);
        assert(buf@ =~= self@.wire());
        buf
    }

    /// Reads the body from the start of `buf`; bytes behind the last field are
    /// left unread.
    pub fn decode(buf: &[u8]) -> (r: Result<Self, DecodeError>)
        ensures
            match QuerySmRespView::parse(buf@) {
                Ok((body, _)) => r matches Ok(b) && b@ == body,
                Err(e) => r == Err::<Self, DecodeError>(e),
            },
    {
        broadcast use lemma_tail_start;

        proof {
            reveal(QuerySmRespView::parse);
        }
        let mut offset: usize = 0;
        let message_id = read_cstring(buf, &mut offset)?;
        let final_date = read_cstring(buf, &mut offset)?;
        let message_state = read_u8(buf, &mut offset)?;
        let error_code = read_u8(buf, &mut offset)?;
        Ok(QuerySmResp { message_id, final_date, message_state, error_code })
    }
}

/// Submits a short message to one destination.
#[derive(Debug, Clone, PartialEq, Eq)]
pub struct SubmitSm {
    pub service_type: String,
    pub source_addr_ton: u8,
    pub source_addr_npi: u8,
    pub source_addr: String,
    pub dest_addr_ton: u8,
    pub dest_addr_npi: u8,
    pub destination_addr: String,
    pub esm_class: u8,
    pub protocol_id: u8,
    pub priority_flag: u8,
    pub schedule_delivery_time: String,
    pub validity_period: String,
    pub registered_delivery: u8,
    pub replace_if_present_flag: u8,
    pub data_coding: u8,
    pub sm_default_msg_id: u8,
    /// The number of bytes of `short_message`.
    pub sm_length: u8,
    pub short_message: Vec<u8>,
    /// The optional parameters that follow the mandatory fields, `message_payload`
    /// among them, in wire order.
    pub message_payload: Vec<TagLengthValue>,
}

impl View for SubmitSm {
    type V = SubmitSmView;

    open spec fn view(&self) -> SubmitSmView {
        SubmitSmView {
            service_type: self.service_type@,
            source_addr_ton: self.source_addr_ton,
            source_addr_npi: self.source_addr_npi,
            source_addr: self.source_addr@,
            dest_addr_ton: self.dest_addr_ton,
            dest_addr_npi: self.dest_addr_npi,
            destination_addr: self.destination_addr@,
            esm_class: self.esm_class,
            protocol_id: self.protocol_id,
            priority_flag: self.priority_flag,
            schedule_delivery_time: self.schedule_delivery_time@,
            validity_period: self.validity_period@,
            registered_delivery: self.registered_delivery,
            replace_if_present_flag: self.replace_if_present_flag,
            data_coding: self.data_coding,
            sm_default_msg_id: self.sm_default_msg_id,
            sm_length: self.sm_length,
            short_message: self.short_message@,
            message_payload: tlv_views(self.message_payload@),
        }
    }
}

impl SubmitSm {
    /// True when each count is the length of what it counts.
    pub fn is_well_formed(&self) -> (b: bool)
        ensures
            b == self@.wf(),
    {
        self.short_message.len() == self.sm_length as usize
            && tlvs_are_well_formed(&self.message_payload)
    }

    /// The bytes of the body.
    pub fn encode(&self) -> (buf: Vec<u8>)
        requires
            self@.wf(),
        ensures
            buf@ == self@.wire(),
    {
        let mut buf = Vec::new();
        write_cstring(&mut buf, self.service_type.as_str());
        write_u8(&mut buf, self.source_addr_ton);
        write_u8(&mut buf, self.source_addr_npi);
        write_cstring(&mut buf, self.source_addr.as_str());
        write_u8(&mut buf, self.dest_addr_ton);
        write_u8(&mut buf, self.dest_addr_npi);
        write_cstring(&mut buf, self.destination_addr.as_str());
        write_u8(&mut buf, self.esm_class);
        write_u8(&mut buf, self.protocol_id);
        write_u8(&mut buf, self.priority_flag);
        write_cstring(&mut buf, self.schedule_delivery_time.as_str());
        write_cstring(&mut buf, self.validity_period.as_str());
        write_u8(&mut buf, self.registered_delivery);
        write_u8(&mut buf, self.replace_if_present_flag);
        write_u8(&mut buf, self.data_coding);
        write_u8(&mut buf, self.sm_default_msg_id);
        write_u8(&mut buf, self.sm_length);
        write_octets(&mut buf, self.short_message.as_slice());
        write_tlvs(&mut buf, &self.message_payload);
        assert(buf@ =~= self@.wire());
        buf
    }

    /// Reads the body from `buf`, which it uses up: what follows the mandatory
    /// fields is read as optional parameters.
    pub fn decode(buf: &[u8]) -> (r: Result<Self, DecodeError>)
        ensures
            match SubmitSmView::parse(buf@) {
                Ok((body, _)) => r matches Ok(b) && b@ == body,
                Err(e) => r == Err::<Self, DecodeError>(e),
            },
    {
        broadcast use lemma_tail_start;

        proof {
            reveal(SubmitSmView::parse);
        }
        let mut offset: usize = 0;
        let service_type = read_cstring(buf, &mut offset)?;
        let source_addr_ton = read_u8(buf, &mut offset)?;
        let source_addr_npi = read_u8(buf, &mut offset)?;
        let source_addr = read_cstring(buf, &mut offset)?;
        let dest_addr_ton = read_u8(buf, &mut offset)?;
        let dest_addr_npi = read_u8(buf, &mut offset)?;
        let destination_addr = read_cstring(buf, &mut offset)?;
        let esm_class = read_u8(buf, &mut offset)?;
        let protocol_id = read_u8(buf, &mut offset)?;
        let priority_flag = read_u8(buf, &mut offset)?;
        let schedule_delivery_time = read_cstring(buf, &mut offset)?;
        let validity_period = read_cstring(buf, &mut offset)?;
        let registered_delivery = read_u8(buf, &mut offset)?;
        let replace_if_present_flag = read_u8(buf, &mut offset)?;
        let data_coding = read_u8(buf, &mut offset)?;
        let sm_default_msg_id = read_u8(buf, &mut offset)?;
        let sm_length = read_u8(buf, &mut offset)?;
        let short_message = read_octets(buf, &mut offset, sm_length as usize)?;
        let message_payload = read_tlvs(buf, &mut offset)?;
        Ok(
            SubmitSm {
                service_type,
                source_addr_ton,
                source_addr_npi,
                source_addr,
                dest_addr_ton,
                dest_addr_npi,
                destination_addr,
                esm_class,
                protocol_id,
                priority_flag,
                schedule_delivery_time,
                validity_period,
                registered_delivery,
                replace_if_present_flag,
                data_coding,
                sm_default_msg_id,
                sm_length,
                short_message,
                message_payload,
            },
        )
    }
}

/// Answers a [`SubmitSm`].
#[derive(Debug, Clone, PartialEq, Eq)]
pub struct SubmitSmResp {
    pub message_id: String,
}

impl View for SubmitSmResp {
    type V = MessageIdView;

    open spec fn view(&self) -> MessageIdView {
        MessageIdView {
            message_id: self.message_id@,
        }
    }
}

impl SubmitSmResp {
    /// The bytes of the body.
    pub fn encode(&self) -> (buf: Vec<u8>)
        ensures
            buf@ == self@.wire(),
    {
        let mut buf = Vec::new();
        write_cstring(&mut buf, self.message_id.as_str());
        assert(buf@ =~= self@.wire());
        buf
    }

    /// Reads the body from the start of `buf`; bytes behind the last field are
    /// left unread.
    pub fn decode(buf: &[u8]) -> (r: Result<Self, DecodeError>)
        ensures
            match MessageIdView::parse(buf@) {
                Ok((body, _)) => r matches Ok(b) && b@ == body,
                Err(e) => r == Err::<Self, DecodeError>(e),
            },
    {
        broadcast use lemma_tail_start;

        proof {
            reveal(MessageIdView::parse);
        }
        let mut offset: usize = 0;
        let message_id = read_cstring(buf, &mut offset)?;
        Ok(SubmitSmResp { message_id })
    }
}

/// Delivers a short message to the client.
#[derive(Debug, Clone, PartialEq, Eq)]
pub struct DeliverSm {
    pub service_type: String,
    pub source_addr_ton: u8,
    pub source_addr_npi: u8,
    pub source_addr: String,
    pub dest_addr_ton: u8,
    pub dest_addr_npi: u8,
    pub destination_addr: String,
    pub esm_class: u8,
    pub protocol_id: u8,
    pub priority_flag: u8,
    pub schedule_delivery_time: String,
    pub validity_period: String,
    pub registered_delivery: u8,
    pub replace_if_present_flag: u8,
    pub data_coding: u8,
    pub sm_default_msg_id: u8,
    /// The number of bytes of `short_message`.
    pub sm_length: u8,
    pub short_message: Vec<u8>,
}

impl View for DeliverSm {
    type V = DeliverSmView;

    open spec fn view(&self) -> DeliverSmView {
        DeliverSmView {
            service_type: self.service_type@,
            source_addr_ton: self.source_addr_ton,
            source_addr_npi: self.source_addr_npi,
            source_addr: self.source_addr@,
            dest_addr_ton: self.dest_addr_ton,
            dest_addr_npi: self.dest_addr_npi,
            destination_addr: self.destination_addr@,
            esm_class: self.esm_class,
            protocol_id: self.protocol_id,
            priority_flag: self.priority_flag,
            schedule_delivery_time: self.schedule_delivery_time@,
            validity_period: self.validity_period@,
            registered_delivery: self.registered_delivery,
            replace_if_present_flag: self.replace_if_present_flag,
            data_coding: self.data_coding,
            sm_default_msg_id: self.sm_default_msg_id,
            sm_length: self.sm_length,
            short_message: self.short_message@,
        }
    }
}

impl DeliverSm {
    /// True when each count is the length of what it counts.
    pub fn is_well_formed(&self) -> (b: bool)
        ensures
            b == self@.wf(),
    {
        self.short_message.len() == self.sm_length as usize
    }

    /// The bytes of the body.
    pub fn encode(&self) -> (buf: Vec<u8>)
        requires
            self@.wf(),
        ensures
            buf@ == self@.wire(),
    {
        let mut buf = Vec::new();
        write_cstring(&mut buf, self.service_type.as_str());
        write_u8(&mut buf, self.source_addr_ton);
        write_u8(&mut buf, self.source_addr_npi);
        write_cstring(&mut buf, self.source_addr.as_str());
        write_u8(&mut buf, self.dest_addr_ton);
        write_u8(&mut buf, self.dest_addr_npi);
        write_cstring(&mut buf, self.destination_addr.as_str());
        write_u8(&mut buf, self.esm_class);
        write_u8(&mut buf, self.protocol_id);
        write_u8(&mut buf, self.priority_flag);
        write_cstring(&mut buf, self.schedule_delivery_time.as_str());
        write_cstring(&mut buf, self.validity_period.as_str());
        write_u8(&mut buf, self.registered_delivery);
        write_u8(&mut buf, self.replace_if_present_flag);
        write_u8(&mut buf, self.data_coding);
        write_u8(&mut buf, self.sm_default_msg_id);
        write_u8(&mut buf, self.sm_length);
        write_octets(&mut buf, self.short_message.as_slice());
        assert(buf@ =~= self@.wire());
        buf
    }

    /// Reads the body from the start of `buf`; bytes behind the last field are
    /// left unread.
    pub fn decode(buf: &[u8]) -> (r: Result<Self, DecodeError>)
        ensures
            match DeliverSmView::parse(buf@) {
                Ok((body, _)) => r matches Ok(b) && b@ == body,
                Err(e) => r == Err::<Self, DecodeError>(e),
            },
    {
        broadcast use lemma_tail_start;

        proof {
            reveal(DeliverSmView::parse);
        }
        let mut offset: usize = 0;
        let service_type = read_cstring(buf, &mut offset)?;
        let source_addr_ton = read_u8(buf, &mut offset)?;
        let source_addr_npi = read_u8(buf, &mut offset)?;
        let source_addr = read_cstring(buf, &mut offset)?;
        let dest_addr_ton = read_u8(buf, &mut offset)?;
        let dest_addr_npi = read_u8(buf, &mut offset)?;
        let destination_addr = read_cstring(buf, &mut offset)?;
        let esm_class = read_u8(buf, &mut offset)?;
        let protocol_id = read_u8(buf, &mut offset)?;
        let priority_flag = read_u8(buf, &mut offset)?;
        let schedule_delivery_time = read_cstring(buf, &mut offset)?;
        let validity_period = read_cstring(buf, &mut offset)?;
        let registered_delivery = read_u8(buf, &mut offset)?;
        let replace_if_present_flag = read_u8(buf, &mut offset)?;
        let data_coding = read_u8(buf, &mut offset)?;
        let sm_default_msg_id = read_u8(buf, &mut offset)?;
        let sm_length = read_u8(buf, &mut offset)?;
        let short_message = read_octets(buf, &mut offset, sm_length as usize)?;
        Ok(
            DeliverSm {
                service_type,
                source_addr_ton,
                source_addr_npi,
                source_addr,
                dest_addr_ton,
                dest_addr_npi,
                destination_addr,
                esm_class,
                protocol_id,
                priority_flag,
                schedule_delivery_time,
                validity_period,
                registered_delivery,
                replace_if_present_flag,
                data_coding,
                sm_default_msg_id,
                sm_length,
                short_message,
            },
        )
    }
}

/// Answers a [`DeliverSm`].
#[derive(Debug, Clone, PartialEq, Eq)]
pub struct DeliverSmResp {
    pub message_id: String,
}

impl View for DeliverSmResp {
    type V = MessageIdView;

    open spec fn view(&self) -> MessageIdView {
        MessageIdView {
            message_id: self.message_id@,
        }
    }
}

impl DeliverSmResp {
    /// The bytes of the body.
    pub fn encode(&self) -> (buf: Vec<u8>)
        ensures
            buf@ == self@.wire(),
    {
        let mut buf = Vec::new();
        write_cstring(&mut buf, self.message_id.as_str());
        assert(buf@ =~= self@.wire());
        buf
    }

    /// Reads the body from the start of `buf`; bytes behind the last field are
    /// left unread.
    pub fn decode(buf: &[u8]) -> (r: Result<Self, DecodeError>)
        ensures
            match MessageIdView::parse(buf@) {
                Ok((body, _)) => r matches Ok(b) && b@ == body,
                Err(e) => r == Err::<Self, DecodeError>(e),
            },
    {
        broadcast use lemma_tail_start;

        proof {
            reveal(MessageIdView::parse);
        }
        let mut offset: usize = 0;
        let message_id = read_cstring(buf, &mut offset)?;
        Ok(DeliverSmResp { message_id })
    }
}

/// Replaces a message that was submitted and not yet delivered.
#[derive(Debug, Clone, PartialEq, Eq)]
pub struct ReplaceSm {
    pub message_id: String,
    pub source_addr_ton: u8,
    pub source_addr_npi: u8,
    pub source_addr: String,
    pub schedule_delivery_time: String,
    pub validity_period: String,
    pub registered_delivery: u8,
    pub sm_default_msg_id: u8,
    /// The number of bytes of `short_message`.
    pub sm_length: u8,
    pub short_message: Vec<u8>,
}

impl View for ReplaceSm {
    type V = ReplaceSmView;

    open spec fn view(&self) -> ReplaceSmView {
        ReplaceSmView {
            message_id: self.message_id@,
            source_addr_ton: self.source_addr_ton,
            source_addr_npi: self.source_addr_npi,
            source_addr: self.source_addr@,
            schedule_delivery_time: self.schedule_delivery_time@,
            validity_period: self.validity_period@,
            registered_delivery: self.registered_delivery,
            sm_default_msg_id: self.sm_default_msg_id,
            sm_length: self.sm_length,
            short_message: self.short_message@,
        }
    }
}

impl ReplaceSm {
    /// True when each count is the length of what it counts.
    pub fn is_well_formed(&self) -> (b: bool)
        ensures
            b == self@.wf(),
    {
        self.short_message.len() == self.sm_length as usize
    }

    /// The bytes of the body.
    pub fn encode(&self) -> (buf: Vec<u8>)
        requires
            self@.wf(),
        ensures
            buf@ == self@.wire(),
    {
        let mut buf = Vec::new();
        write_cstring(&mut buf, self.message_id.as_str());
        write_u8(&mut buf, self.source_addr_ton);
        write_u8(&mut buf, self.source_addr_npi);
        write_cstring(&mut buf, self.source_addr.as_str());
        write_cstring(&mut buf, self.schedule_delivery_time.as_str());
        write_cstring(&mut buf, self.validity_period.as_str());
        write_u8(&mut buf, self.registered_delivery);
        write_u8(&mut buf, self.sm_default_msg_id);
        write_u8(&mut buf, self.sm_length);
        write_octets(&mut buf, self.short_message.as_slice());
        assert(buf@ =~= self@.wire());
        buf
    }

    /// Reads the body from the start of `buf`; bytes behind the last field are
    /// left unread.
    pub fn decode(buf: &[u8]) -> (r: Result<Self, DecodeError>)
        ensures
            match ReplaceSmView::parse(buf@) {
                Ok((body, _)) => r matches Ok(b) && b@ == body,
                Err(e) => r == Err::<Self, DecodeError>(e),
            },
    {
        broadcast use lemma_tail_start;

        proof {
            reveal(ReplaceSmView::parse);
        }
        let mut offset: usize = 0;
        let message_id = read_cstring(buf, &mut offset)?;
        let source_addr_ton = read_u8(buf, &mut offset)?;
        let source_addr_npi = read_u8(buf, &mut offset)?;
        let source_addr = read_cstring(buf, &mut offset)?;
        let schedule_delivery_time = read_cstring(buf, &mut offset)?;
        let validity_period = read_cstring(buf, &mut offset)?;
        let registered_delivery = read_u8(buf, &mut offset)?;
        let sm_default_msg_id = read_u8(buf, &mut offset)?;
        let sm_length = read_u8(buf, &mut offset)?;
        let short_message = read_octets(buf, &mut offset, sm_length as usize)?;
        Ok(
            ReplaceSm {
                message_id,
                source_addr_ton,
                source_addr_npi,
                source_addr,
                schedule_delivery_time,
                validity_period,
                registered_delivery,
                sm_default_msg_id,
                sm_length,
                short_message,
            },
        )
    }
}

/// Answers a [`ReplaceSm`].
#[derive(Debug, Clone, PartialEq, Eq)]
pub struct ReplaceSmResp {
    pub message_id: String,
}

impl View for ReplaceSmResp {
    type V = MessageIdView;

    open spec fn view(&self) -> MessageIdView {
        MessageIdView {
            message_id: self.message_id@,
        }
    }
}

impl ReplaceSmResp {
    /// The bytes of the body.
    pub fn encode(&self) -> (buf: Vec<u8>)
        ensures
            buf@ == self@.wire(),
    {
        let mut buf = Vec::new();
        write_cstring(&mut buf, self.message_id.as_str());
        assert(buf@ =~= self@.wire());
        buf
    }

    /// Reads the body from the start of `buf`; bytes behind the last field are
    /// left unread.
    pub fn decode(buf: &[u8]) -> (r: Result<Self, DecodeError>)
        ensures
            match MessageIdView::parse(buf@) {
                Ok((body, _)) => r matches Ok(b) && b@ == body,
                Err(e) => r == Err::<Self, DecodeError>(e),
            },
    {
        broadcast use lemma_tail_start;

        proof {
            reveal(MessageIdView::parse);
        }
        let mut offset: usize = 0;
        let message_id = read_cstring(buf, &mut offset)?;
        Ok(ReplaceSmResp { message_id })
    }
}

/// Cancels a message that was submitted and not yet delivered.
#[derive(Debug, Clone, PartialEq, Eq)]
pub struct CancelSm {
    pub service_type: String,
    pub message_id: String,
    pub source_addr_ton: u8,
    pub source_addr_npi: u8,
    pub source_addr: String,
    pub dest_addr_ton: u8,
    pub dest_addr_npi: u8,
    pub destination_addr: String,
}

impl View for CancelSm {
    type V = CancelSmView;

    open spec fn view(&self) -> CancelSmView {
        CancelSmView {
            service_type: self.service_type@,
            message_id: self.message_id@,
            source_addr_ton: self.source_addr_ton,
            source_addr_npi: self.source_addr_npi,
            source_addr: self.source_addr@,
            dest_addr_ton: self.dest_addr_ton,
            dest_addr_npi: self.dest_addr_npi,
            destination_addr: self.destination_addr@,
        }
    }
}

impl CancelSm {
    /// The bytes of the body.
    pub fn encode(&self) -> (buf: Vec<u8>)
        ensures
            buf@ == self@.wire(),
    {
        let mut buf = Vec::new();
        write_cstring(&mut buf, self.service_type.as_str());
        write_cstring(&mut buf, self.message_id.as_str());
        write_u8(&mut buf, self.source_addr_ton);
        write_u8(&mut buf, self.source_addr_npi);
        write_cstring(&mut buf, self.source_addr.as_str());
        write_u8(&mut buf, self.dest_addr_ton);
        write_u8(&mut buf, self.dest_addr_npi);
        write_cstring(&mut buf, self.destination_addr.as_str());
        assert(buf@ =~= self@.wire());
        buf
    }

    /// Reads the body from the start of `buf`; bytes behind the last field are
    /// left unread.
    pub fn decode(buf: &[u8]) -> (r: Result<Self, DecodeError>)
        ensures
            match CancelSmView::parse(buf@) {
                Ok((body, _)) => r matches Ok(b) && b@ == body,
                Err(e) => r == Err::<Self, DecodeError>(e),
            },
    {
        broadcast use lemma_tail_start;

        proof {
            reveal(CancelSmView::parse);
        }
        let mut offset: usize = 0;
        let service_type = read_cstring(buf, &mut offset)?;
        let message_id = read_cstring(buf, &mut offset)?;
        let source_addr_ton = read_u8(buf, &mut offset)?;
        let source_addr_npi = read_u8(buf, &mut offset)?;
        let source_addr = read_cstring(buf, &mut offset)?;
        let dest_addr_ton = read_u8(buf, &mut offset)?;
        let dest_addr_npi = read_u8(buf, &mut offset)?;
        let destination_addr = read_cstring(buf, &mut offset)?;
        Ok(
            CancelSm {
                service_type,
                message_id,
                source_addr_ton,
                source_addr_npi,
                source_addr,
                dest_addr_ton,
                dest_addr_npi,
                destination_addr,
            },
        )
    }
}

/// Answers a [`CancelSm`].
#[derive(Debug, Clone, PartialEq, Eq)]
pub struct CancelSmResp {}

impl CancelSmResp {
    /// The bytes of the body: none.
    pub fn encode(&self) -> (buf: Vec<u8>)
        ensures
            buf@ == Seq::<u8>::empty(),
    {
        Vec::new()
    }

    /// Reads the body, which has no fields: whatever `buf` holds is left unread.
    pub fn decode(buf: &[u8]) -> (r: Result<Self, DecodeError>)
        ensures
            r == Ok::<Self, DecodeError>(CancelSmResp {}),
    {
        Ok(CancelSmResp {})
    }
}

} // verus!
