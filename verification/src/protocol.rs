//! Protocol data units: the header, the body of each command, and the codec
//! between them and bytes.
//!
//! A frame is a header of sixteen bytes and a body whose layout the header's
//! command id selects. [`PduView::wire`] says what bytes a unit has,
//! [`PduView::parse`] what unit a frame holds or why it holds none, and
//! [`SmppPdu::encode`] and [`SmppPdu::decode`] compute the two.

pub mod bind;
pub mod link;
pub mod message;
pub mod multi;
pub mod tlv;

use crate::constant::{
    BIND_RECEIVER_ID, BIND_RECEIVER_RESP_ID, BIND_TRANSCEIVER_ID, BIND_TRANSCEIVER_RESP_ID,
    BIND_TRANSMITTER_ID, BIND_TRANSMITTER_RESP_ID, CANCEL_SM_ID, CANCEL_SM_RESP_ID,
    DELIVER_SM_ID, DELIVER_SM_RESP_ID, ENQUIRE_LINK_ID, ENQUIRE_LINK_RESP_ID, OUTBIND_ID,
    QUERY_SM_ID, QUERY_SM_RESP_ID, REPLACE_SM_ID, REPLACE_SM_RESP_ID, SUBMIT_MULTI_ID,
    SUBMIT_MULTI_RESP_ID, SUBMIT_SM_ID, SUBMIT_SM_RESP_ID, UNBIND_ID, UNBIND_RESP_ID,
};
use crate::wire::{
    be32, be32_signed, be32_value, lemma_be32_value, u32_at, write_i32, write_u32, Parsed,
};
use vstd::prelude::*;

pub use crate::wire::DecodeError;
pub use bind::{
    BindReceiver, BindReceiverResp, BindRespView, BindTransceiver, BindTransceiverResp,
    BindTransmitter, BindTransmitterResp, BindView, Outbind, OutbindView,
};
pub use link::{EnquireLink, EnquireLinkResp, Unbind, UnbindResp};
pub use message::{
    CancelSm, CancelSmResp, CancelSmView, DeliverSm, DeliverSmResp, DeliverSmView, MessageIdView,
    QuerySm, QuerySmResp, QuerySmRespView, QuerySmView, ReplaceSm, ReplaceSmResp, ReplaceSmView,
    SubmitSm, SubmitSmResp, SubmitSmView,
};
pub use multi::{
    DestinationAddress, DestinationAddressView, SubmitMulti, SubmitMultiResp, SubmitMultiRespView,
    SubmitMultiView, UnsuccessfulDelivery, UnsuccessfulDeliveryView,
};
pub use tlv::{TagLengthValue, TlvView};

verus! {

/// The number of bytes of a header.
pub const HEADER_LENGTH: usize = 16;

/// The fixed part of every frame.
#[derive(Debug, Clone, Copy, PartialEq, Eq)]
pub struct SmppHeader {
    /// The number of bytes of the whole frame, these sixteen among them.
    pub command_length: u32,
    /// Which body follows.
    pub command_id: u32,
    /// Zero in a request and in a response that accepts it; else the peer's
    /// error code.
    pub command_status: i32,
    /// Pairs a response with its request.
    pub sequence_number: i32,
}

impl SmppHeader {
    /// The header on the wire: four numbers of four bytes, most significant
    /// byte first.
    pub open spec fn wire(self) -> Seq<u8> {
        be32(self.command_length) + be32(self.command_id) + be32_signed(self.command_status)
            + be32_signed(self.sequence_number)
    }

    /// Reads a header off the input.
    pub open spec fn parse(input: Seq<u8>) -> Parsed<SmppHeader> {
        if input.len() < HEADER_LENGTH {
            Err(DecodeError::TruncatedHeader)
        } else {
            Ok(
                (
                    SmppHeader {
                        command_length: be32_value(input.subrange(0, 4)),
                        command_id: be32_value(input.subrange(4, 8)),
                        command_status: be32_value(input.subrange(8, 12)) as i32,
                        sequence_number: be32_value(input.subrange(12, 16)) as i32,
                    },
                    input.skip(16),
                ),
            )
        }
    }

    /// A header is sixteen bytes long and starts with its `command_length`.
    pub proof fn lemma_wire_shape(self)
        ensures
            self.wire().len() == HEADER_LENGTH,
            self.wire().subrange(0, 4) == be32(self.command_length),
    {
        lemma_be32_value(self.command_length);
        lemma_be32_value(self.command_id);
        lemma_be32_value(self.command_status as u32);
        lemma_be32_value(self.sequence_number as u32);
        assert(self.wire().subrange(0, 4) =~= be32(self.command_length));
    }

    /// A header that was written is read back, and the input goes on with what
    /// stood behind it.
    pub proof fn lemma_parse_wire(self, rest: Seq<u8>)
        ensures
            Self::parse(self.wire() + rest) == Ok::<(SmppHeader, Seq<u8>), DecodeError>(
                (self, rest),
            ),
    {
        let input = self.wire() + rest;
        lemma_be32_value(self.command_length);
        lemma_be32_value(self.command_id);
        lemma_be32_value(self.command_status as u32);
        lemma_be32_value(self.sequence_number as u32);
        assert(input.subrange(0, 4) =~= be32(self.command_length));
        assert(input.subrange(4, 8) =~= be32(self.command_id));
        assert(input.subrange(8, 12) =~= be32(self.command_status as u32));
        assert(input.subrange(12, 16) =~= be32(self.sequence_number as u32));
        assert(input.skip(16) =~= rest);
        let status = self.command_status;
        let sequence = self.sequence_number;
        assert((status as u32) as i32 == status) by (bit_vector);
        assert((sequence as u32) as i32 == sequence) by (bit_vector);
    }

    /// The sixteen bytes of the header.
    pub fn encode(&self) -> (buf: Vec<u8>)
        ensures
            buf@ == self.wire(),
            buf@.len() == HEADER_LENGTH,
    {
        let mut buf = Vec::new();
        write_u32(&mut buf, self.command_length);
        write_u32(&mut buf, self.command_id);
        write_i32(&mut buf, self.command_status);
        write_i32(&mut buf, self.sequence_number);
        proof {
            self.lemma_wire_shape();
            assert(buf@ =~= self.wire());
        }
        buf
    }

    /// Reads the header from the first sixteen bytes of `buf`.
    pub fn decode(buf: &[u8]) -> (r: Result<Self, DecodeError>)
        ensures
            match Self::parse(buf@) {
                Ok((header, _)) => r == Ok::<Self, DecodeError>(header),
                Err(e) => r == Err::<Self, DecodeError>(e),
            },
            buf@.len() < HEADER_LENGTH <==> r == Err::<Self, DecodeError>(
                DecodeError::TruncatedHeader,
            ),
    {
        if buf.len() < HEADER_LENGTH {
            return Err(DecodeError::TruncatedHeader);
        }
        let command_length = u32_at(buf, 0);
        let command_id = u32_at(buf, 4);
        let command_status = u32_at(buf, 8) as i32;
        let sequence_number = u32_at(buf, 12) as i32;
        Ok(SmppHeader { command_length, command_id, command_status, sequence_number })
    }
}

/// The body of a frame: one variant for each command.
#[derive(Debug, Clone, PartialEq, Eq)]
pub enum SmppBody {
    BindReceiver(BindReceiver),
    BindReceiverResp(BindReceiverResp),
    BindTransmitter(BindTransmitter),
    BindTransmitterResp(BindTransmitterResp),
    QuerySm(QuerySm),
    QuerySmResp(QuerySmResp),
    SubmitSm(SubmitSm),
    SubmitSmResp(SubmitSmResp),
    DeliverSm(DeliverSm),
    DeliverSmResp(DeliverSmResp),
    Unbind(Unbind),
    UnbindResp(UnbindResp),
    ReplaceSm(ReplaceSm),
    ReplaceSmResp(ReplaceSmResp),
    CancelSm(CancelSm),
    CancelSmResp(CancelSmResp),
    BindTransceiver(BindTransceiver),
    BindTransceiverResp(BindTransceiverResp),
    Outbind(Outbind),
    EnquireLink(EnquireLink),
    EnquireLinkResp(EnquireLinkResp),
    SubmitMulti(SubmitMulti),
    SubmitMultiResp(SubmitMultiResp),
}

/// What a body holds, as plain values.
pub enum BodyView {
    BindReceiver(BindView),
    BindReceiverResp(BindRespView),
    BindTransmitter(BindView),
    BindTransmitterResp(BindRespView),
    QuerySm(QuerySmView),
    QuerySmResp(QuerySmRespView),
    SubmitSm(SubmitSmView),
    SubmitSmResp(MessageIdView),
    DeliverSm(DeliverSmView),
    DeliverSmResp(MessageIdView),
    Unbind,
    UnbindResp,
    ReplaceSm(ReplaceSmView),
    ReplaceSmResp(MessageIdView),
    CancelSm(CancelSmView),
    CancelSmResp,
    BindTransceiver(BindView),
    BindTransceiverResp(BindRespView),
    Outbind(OutbindView),
    EnquireLink,
    EnquireLinkResp,
    SubmitMulti(SubmitMultiView),
    SubmitMultiResp(SubmitMultiRespView),
}

impl View for SmppBody {
    type V = BodyView;

    open spec fn view(&self) -> BodyView {
        match self {
            SmppBody::BindReceiver(b) => BodyView::BindReceiver(b@),
            SmppBody::BindReceiverResp(b) => BodyView::BindReceiverResp(b@),
            SmppBody::BindTransmitter(b) => BodyView::BindTransmitter(b@),
            SmppBody::BindTransmitterResp(b) => BodyView::BindTransmitterResp(b@),
            SmppBody::QuerySm(b) => BodyView::QuerySm(b@),
            SmppBody::QuerySmResp(b) => BodyView::QuerySmResp(b@),
            SmppBody::SubmitSm(b) => BodyView::SubmitSm(b@),
            SmppBody::SubmitSmResp(b) => BodyView::SubmitSmResp(b@),
            SmppBody::DeliverSm(b) => BodyView::DeliverSm(b@),
            SmppBody::DeliverSmResp(b) => BodyView::DeliverSmResp(b@),
            SmppBody::Unbind(_) => BodyView::Unbind,
            SmppBody::UnbindResp(_) => BodyView::UnbindResp,
            SmppBody::ReplaceSm(b) => BodyView::ReplaceSm(b@),
            SmppBody::ReplaceSmResp(b) => BodyView::ReplaceSmResp(b@),
            SmppBody::CancelSm(b) => BodyView::CancelSm(b@),
            SmppBody::CancelSmResp(_) => BodyView::CancelSmResp,
            SmppBody::BindTransceiver(b) => BodyView::BindTransceiver(b@),
            SmppBody::BindTransceiverResp(b) => BodyView::BindTransceiverResp(b@),
            SmppBody::Outbind(b) => BodyView::Outbind(b@),
            SmppBody::EnquireLink(_) => BodyView::EnquireLink,
            SmppBody::EnquireLinkResp(_) => BodyView::EnquireLinkResp,
            SmppBody::SubmitMulti(b) => BodyView::SubmitMulti(b@),
            SmppBody::SubmitMultiResp(b) => BodyView::SubmitMultiResp(b@),
        }
    }
}

impl BodyView {
    /// The command id that stands for this variant in a header.
    pub open spec fn command_id(self) -> u32 {
        match self {
            BodyView::BindReceiver(_) => BIND_RECEIVER_ID,
            BodyView::BindReceiverResp(_) => BIND_RECEIVER_RESP_ID,
            BodyView::BindTransmitter(_) => BIND_TRANSMITTER_ID,
            BodyView::BindTransmitterResp(_) => BIND_TRANSMITTER_RESP_ID,
            BodyView::QuerySm(_) => QUERY_SM_ID,
            BodyView::QuerySmResp(_) => QUERY_SM_RESP_ID,
            BodyView::SubmitSm(_) => SUBMIT_SM_ID,
            BodyView::SubmitSmResp(_) => SUBMIT_SM_RESP_ID,
            BodyView::DeliverSm(_) => DELIVER_SM_ID,
            BodyView::DeliverSmResp(_) => DELIVER_SM_RESP_ID,
            BodyView::Unbind => UNBIND_ID,
            BodyView::UnbindResp => UNBIND_RESP_ID,
            BodyView::ReplaceSm(_) => REPLACE_SM_ID,
            BodyView::ReplaceSmResp(_) => REPLACE_SM_RESP_ID,
            BodyView::CancelSm(_) => CANCEL_SM_ID,
            BodyView::CancelSmResp => CANCEL_SM_RESP_ID,
            BodyView::BindTransceiver(_) => BIND_TRANSCEIVER_ID,
            BodyView::BindTransceiverResp(_) => BIND_TRANSCEIVER_RESP_ID,
            BodyView::Outbind(_) => OUTBIND_ID,
            BodyView::EnquireLink => ENQUIRE_LINK_ID,
            BodyView::EnquireLinkResp => ENQUIRE_LINK_RESP_ID,
            BodyView::SubmitMulti(_) => SUBMIT_MULTI_ID,
            BodyView::SubmitMultiResp(_) => SUBMIT_MULTI_RESP_ID,
        }
    }

    /// The body on the wire.
    pub open spec fn wire(self) -> Seq<u8> {
        match self {
            BodyView::BindReceiver(b) => b.wire(),
            BodyView::BindReceiverResp(b) => b.wire(),
            BodyView::BindTransmitter(b) => b.wire(),
            BodyView::BindTransmitterResp(b) => b.wire(),
            BodyView::QuerySm(b) => b.wire(),
            BodyView::QuerySmResp(b) => b.wire(),
            BodyView::SubmitSm(b) => b.wire(),
            BodyView::SubmitSmResp(b) => b.wire(),
            BodyView::DeliverSm(b) => b.wire(),
            BodyView::DeliverSmResp(b) => b.wire(),
            BodyView::Unbind => Seq::empty(),
            BodyView::UnbindResp => Seq::empty(),
            BodyView::ReplaceSm(b) => b.wire(),
            BodyView::ReplaceSmResp(b) => b.wire(),
            BodyView::CancelSm(b) => b.wire(),
            BodyView::CancelSmResp => Seq::empty(),
            BodyView::BindTransceiver(b) => b.wire(),
            BodyView::BindTransceiverResp(b) => b.wire(),
            BodyView::Outbind(b) => b.wire(),
            BodyView::EnquireLink => Seq::empty(),
            BodyView::EnquireLinkResp => Seq::empty(),
            BodyView::SubmitMulti(b) => b.wire(),
            BodyView::SubmitMultiResp(b) => b.wire(),
        }
    }

    /// True when each count in the body is the length of what it counts.
    pub open spec fn wf(self) -> bool {
        match self {
            BodyView::SubmitSm(b) => b.wf(),
            BodyView::DeliverSm(b) => b.wf(),
            BodyView::ReplaceSm(b) => b.wf(),
            BodyView::SubmitMulti(b) => b.wf(),
            BodyView::SubmitMultiResp(b) => b.wf(),
            _ => true,
        }
    }

    /// True of a body that comes back from the wire as it went: every count is
    /// right and no string holds a NUL character.
    pub open spec fn valid(self) -> bool {
        match self {
            BodyView::BindReceiver(b) => b.valid(),
            BodyView::BindReceiverResp(b) => b.valid(),
            BodyView::BindTransmitter(b) => b.valid(),
            BodyView::BindTransmitterResp(b) => b.valid(),
            BodyView::QuerySm(b) => b.valid(),
            BodyView::QuerySmResp(b) => b.valid(),
            BodyView::SubmitSm(b) => b.valid(),
            BodyView::SubmitSmResp(b) => b.valid(),
            BodyView::DeliverSm(b) => b.valid(),
            BodyView::DeliverSmResp(b) => b.valid(),
            BodyView::Unbind => true,
            BodyView::UnbindResp => true,
            BodyView::ReplaceSm(b) => b.valid(),
            BodyView::ReplaceSmResp(b) => b.valid(),
            BodyView::CancelSm(b) => b.valid(),
            BodyView::CancelSmResp => true,
            BodyView::BindTransceiver(b) => b.valid(),
            BodyView::BindTransceiverResp(b) => b.valid(),
            BodyView::Outbind(b) => b.valid(),
            BodyView::EnquireLink => true,
            BodyView::EnquireLinkResp => true,
            BodyView::SubmitMulti(b) => b.valid(),
            BodyView::SubmitMultiResp(b) => b.valid(),
        }
    }

    /// Reads the body that `command_id` announces from `input`, which is all
    /// of the frame behind the header. An id that no variant has is not
    /// supported.
    pub open spec fn parse(command_id: u32, input: Seq<u8>) -> Result<BodyView, DecodeError> {
        if command_id == BIND_RECEIVER_ID {
            match BindView::parse(input) {
                Ok((b, _)) => Ok(BodyView::BindReceiver(b)),
                Err(e) => Err(e),
            }
        } else if command_id == BIND_RECEIVER_RESP_ID {
            match BindRespView::parse(input) {
                Ok((b, _)) => Ok(BodyView::BindReceiverResp(b)),
                Err(e) => Err(e),
            }
        } else if command_id == BIND_TRANSMITTER_ID {
            match BindView::parse(input) {
                Ok((b, _)) => Ok(BodyView::BindTransmitter(b)),
                Err(e) => Err(e),
            }
        } else if command_id == BIND_TRANSMITTER_RESP_ID {
            match BindRespView::parse(input) {
                Ok((b, _)) => Ok(BodyView::BindTransmitterResp(b)),
                Err(e) => Err(e),
            }
        } else if command_id == QUERY_SM_ID {
            match QuerySmView::parse(input) {
                Ok((b, _)) => Ok(BodyView::QuerySm(b)),
                Err(e) => Err(e),
            }
        } else if command_id == QUERY_SM_RESP_ID {
            match QuerySmRespView::parse(input) {
                Ok((b, _)) => Ok(BodyView::QuerySmResp(b)),
                Err(e) => Err(e),
            }
        } else if command_id == SUBMIT_SM_ID {
            match SubmitSmView::parse(input) {
                Ok((b, _)) => Ok(BodyView::SubmitSm(b)),
                Err(e) => Err(e),
            }
        } else if command_id == SUBMIT_SM_RESP_ID {
            match MessageIdView::parse(input) {
                Ok((b, _)) => Ok(BodyView::SubmitSmResp(b)),
                Err(e) => Err(e),
            }
        } else if command_id == DELIVER_SM_ID {
            match DeliverSmView::parse(input) {
                Ok((b, _)) => Ok(BodyView::DeliverSm(b)),
                Err(e) => Err(e),
            }
        } else if command_id == DELIVER_SM_RESP_ID {
            match MessageIdView::parse(input) {
                Ok((b, _)) => Ok(BodyView::DeliverSmResp(b)),
                Err(e) => Err(e),
            }
        } else if command_id == UNBIND_ID {
            Ok(BodyView::Unbind)
        } else if command_id == UNBIND_RESP_ID {
            Ok(BodyView::UnbindResp)
        } else if command_id == REPLACE_SM_ID {
            match ReplaceSmView::parse(input) {
                Ok((b, _)) => Ok(BodyView::ReplaceSm(b)),
                Err(e) => Err(e),
            }
        } else if command_id == REPLACE_SM_RESP_ID {
            match MessageIdView::parse(input) {
                Ok((b, _)) => Ok(BodyView::ReplaceSmResp(b)),
                Err(e) => Err(e),
            }
        } else if command_id == CANCEL_SM_ID {
            match CancelSmView::parse(input) {
                Ok((b, _)) => Ok(BodyView::CancelSm(b)),
                Err(e) => Err(e),
            }
        } else if command_id == CANCEL_SM_RESP_ID {
            Ok(BodyView::CancelSmResp)
        } else if command_id == BIND_TRANSCEIVER_ID {
            match BindView::parse(input) {
                Ok((b, _)) => Ok(BodyView::BindTransceiver(b)),
                Err(e) => Err(e),
            }
        } else if command_id == BIND_TRANSCEIVER_RESP_ID {
            match BindRespView::parse(input) {
                Ok((b, _)) => Ok(BodyView::BindTransceiverResp(b)),
                Err(e) => Err(e),
            }
        } else if command_id == OUTBIND_ID {
            match OutbindView::parse(input) {
                Ok((b, _)) => Ok(BodyView::Outbind(b)),
                Err(e) => Err(e),
            }
        } else if command_id == ENQUIRE_LINK_ID {
            Ok(BodyView::EnquireLink)
        } else if command_id == ENQUIRE_LINK_RESP_ID {
            Ok(BodyView::EnquireLinkResp)
        } else if command_id == SUBMIT_MULTI_ID {
            match SubmitMultiView::parse(input) {
                Ok((b, _)) => Ok(BodyView::SubmitMulti(b)),
                Err(e) => Err(e),
            }
        } else if command_id == SUBMIT_MULTI_RESP_ID {
            match SubmitMultiRespView::parse(input) {
                Ok((b, _)) => Ok(BodyView::SubmitMultiResp(b)),
                Err(e) => Err(e),
            }
        } else {
            Err(DecodeError::UnsupportedCommand)
        }
    }

    /// A body that is read has the command id it was read under and is valid,
    /// and its bytes stood at the front of the input.
    pub proof fn lemma_wire_parse(command_id: u32, input: Seq<u8>)
        ensures
            Self::parse(command_id, input) matches Ok(body) ==> {
                &&& body.command_id() == command_id
                &&& body.valid()
                &&& body.wire().is_prefix_of(input)
            },
    {
        BindView::lemma_wire_parse(input);
        BindRespView::lemma_wire_parse(input);
        QuerySmView::lemma_wire_parse(input);
        QuerySmRespView::lemma_wire_parse(input);
        SubmitSmView::lemma_wire_parse(input);
        MessageIdView::lemma_wire_parse(input);
        DeliverSmView::lemma_wire_parse(input);
        ReplaceSmView::lemma_wire_parse(input);
        CancelSmView::lemma_wire_parse(input);
        OutbindView::lemma_wire_parse(input);
        SubmitMultiView::lemma_wire_parse(input);
        SubmitMultiRespView::lemma_wire_parse(input);
    }

    /// A valid body is well formed.
    pub proof fn lemma_valid_wf(self)
        requires
            self.valid(),
        ensures
            self.wf(),
    {
    }

    /// A valid body that was written is read back under its own command id.
    pub proof fn lemma_parse_wire(self)
        requires
            self.valid(),
        ensures
            Self::parse(self.command_id(), self.wire()) == Ok::<BodyView, DecodeError>(self),
    {
        match self {
            BodyView::BindReceiver(b) => {
                b.lemma_parse_wire(Seq::empty());
                assert(b.wire() + Seq::<u8>::empty() =~= b.wire());
            },
            BodyView::BindReceiverResp(b) => {
                b.lemma_parse_wire(Seq::empty());
                assert(b.wire() + Seq::<u8>::empty() =~= b.wire());
            },
            BodyView::BindTransmitter(b) => {
                b.lemma_parse_wire(Seq::empty());
                assert(b.wire() + Seq::<u8>::empty() =~= b.wire());
            },
            BodyView::BindTransmitterResp(b) => {
                b.lemma_parse_wire(Seq::empty());
                assert(b.wire() + Seq::<u8>::empty() =~= b.wire());
            },
            BodyView::QuerySm(b) => {
                b.lemma_parse_wire(Seq::empty());
                assert(b.wire() + Seq::<u8>::empty() =~= b.wire());
            },
            BodyView::QuerySmResp(b) => {
                b.lemma_parse_wire(Seq::empty());
                assert(b.wire() + Seq::<u8>::empty() =~= b.wire());
            },
            BodyView::SubmitSm(b) => b.lemma_parse_wire(),
            BodyView::SubmitSmResp(b) => {
                b.lemma_parse_wire(Seq::empty());
                assert(b.wire() + Seq::<u8>::empty() =~= b.wire());
            },
            BodyView::DeliverSm(b) => {
                b.lemma_parse_wire(Seq::empty());
                assert(b.wire() + Seq::<u8>::empty() =~= b.wire());
            },
            BodyView::DeliverSmResp(b) => {
                b.lemma_parse_wire(Seq::empty());
                assert(b.wire() + Seq::<u8>::empty() =~= b.wire());
            },
            BodyView::Unbind => {},
            BodyView::UnbindResp => {},
            BodyView::ReplaceSm(b) => {
                b.lemma_parse_wire(Seq::empty());
                assert(b.wire() + Seq::<u8>::empty() =~= b.wire());
            },
            BodyView::ReplaceSmResp(b) => {
                b.lemma_parse_wire(Seq::empty());
                assert(b.wire() + Seq::<u8>::empty() =~= b.wire());
            },
            BodyView::CancelSm(b) => {
                b.lemma_parse_wire(Seq::empty());
                assert(b.wire() + Seq::<u8>::empty() =~= b.wire());
            },
            BodyView::CancelSmResp => {},
            BodyView::BindTransceiver(b) => {
                b.lemma_parse_wire(Seq::empty());
                assert(b.wire() + Seq::<u8>::empty() =~= b.wire());
            },
            BodyView::BindTransceiverResp(b) => {
                b.lemma_parse_wire(Seq::empty());
                assert(b.wire() + Seq::<u8>::empty() =~= b.wire());
            },
            BodyView::Outbind(b) => {
                b.lemma_parse_wire(Seq::empty());
                assert(b.wire() + Seq::<u8>::empty() =~= b.wire());
            },
            BodyView::EnquireLink => {},
            BodyView::EnquireLinkResp => {},
            BodyView::SubmitMulti(b) => {
                b.lemma_parse_wire(Seq::empty());
                assert(b.wire() + Seq::<u8>::empty() =~= b.wire());
            },
            BodyView::SubmitMultiResp(b) => {
                b.lemma_parse_wire(Seq::empty());
                assert(b.wire() + Seq::<u8>::empty() =~= b.wire());
            },
        }
    }
}

impl SmppBody {
    /// The command id that stands for this variant in a header.
    pub fn command_id(&self) -> (id: u32)
        ensures
            id == self@.command_id(),
    {
        match self {
            SmppBody::BindReceiver(_) => BIND_RECEIVER_ID,
            SmppBody::BindReceiverResp(_) => BIND_RECEIVER_RESP_ID,
            SmppBody::BindTransmitter(_) => BIND_TRANSMITTER_ID,
            SmppBody::BindTransmitterResp(_) => BIND_TRANSMITTER_RESP_ID,
            SmppBody::QuerySm(_) => QUERY_SM_ID,
            SmppBody::QuerySmResp(_) => QUERY_SM_RESP_ID,
            SmppBody::SubmitSm(_) => SUBMIT_SM_ID,
            SmppBody::SubmitSmResp(_) => SUBMIT_SM_RESP_ID,
            SmppBody::DeliverSm(_) => DELIVER_SM_ID,
            SmppBody::DeliverSmResp(_) => DELIVER_SM_RESP_ID,
            SmppBody::Unbind(_) => UNBIND_ID,
            SmppBody::UnbindResp(_) => UNBIND_RESP_ID,
            SmppBody::ReplaceSm(_) => REPLACE_SM_ID,
            SmppBody::ReplaceSmResp(_) => REPLACE_SM_RESP_ID,
            SmppBody::CancelSm(_) => CANCEL_SM_ID,
            SmppBody::CancelSmResp(_) => CANCEL_SM_RESP_ID,
            SmppBody::BindTransceiver(_) => BIND_TRANSCEIVER_ID,
            SmppBody::BindTransceiverResp(_) => BIND_TRANSCEIVER_RESP_ID,
            SmppBody::Outbind(_) => OUTBIND_ID,
            SmppBody::EnquireLink(_) => ENQUIRE_LINK_ID,
            SmppBody::EnquireLinkResp(_) => ENQUIRE_LINK_RESP_ID,
            SmppBody::SubmitMulti(_) => SUBMIT_MULTI_ID,
            SmppBody::SubmitMultiResp(_) => SUBMIT_MULTI_RESP_ID,
        }
    }

    /// True when each count in the body is the length of what it counts.
    pub fn is_well_formed(&self) -> (b: bool)
        ensures
            b == self@.wf(),
    {
        match self {
            SmppBody::SubmitSm(b) => b.is_well_formed(),
            SmppBody::DeliverSm(b) => b.is_well_formed(),
            SmppBody::ReplaceSm(b) => b.is_well_formed(),
            SmppBody::SubmitMulti(b) => b.is_well_formed(),
            SmppBody::SubmitMultiResp(b) => b.is_well_formed(),
            _ => true,
        }
    }

    /// The bytes of the body.
    pub fn encode(&self) -> (buf: Vec<u8>)
        requires
            self@.wf(),
        ensures
            buf@ == self@.wire(),
    {
        match self {
            SmppBody::BindReceiver(b) => b.encode(),
            SmppBody::BindReceiverResp(b) => b.encode(),
            SmppBody::BindTransmitter(b) => b.encode(),
            SmppBody::BindTransmitterResp(b) => b.encode(),
            SmppBody::QuerySm(b) => b.encode(),
            SmppBody::QuerySmResp(b) => b.encode(),
            SmppBody::SubmitSm(b) => b.encode(),
            SmppBody::SubmitSmResp(b) => b.encode(),
            SmppBody::DeliverSm(b) => b.encode(),
            SmppBody::DeliverSmResp(b) => b.encode(),
            SmppBody::Unbind(b) => b.encode(),
            SmppBody::UnbindResp(b) => b.encode(),
            SmppBody::ReplaceSm(b) => b.encode(),
            SmppBody::ReplaceSmResp(b) => b.encode(),
            SmppBody::CancelSm(b) => b.encode(),
            SmppBody::CancelSmResp(b) => b.encode(),
            SmppBody::BindTransceiver(b) => b.encode(),
            SmppBody::BindTransceiverResp(b) => b.encode(),
            SmppBody::Outbind(b) => b.encode(),
            SmppBody::EnquireLink(b) => b.encode(),
            SmppBody::EnquireLinkResp(b) => b.encode(),
            SmppBody::SubmitMulti(b) => b.encode(),
            SmppBody::SubmitMultiResp(b) => b.encode(),
        }
    }

    /// Reads the body that `command_id` announces from `buf`, which is all of
    /// the frame behind the header.
    pub fn decode(command_id: u32, buf: &[u8]) -> (r: Result<Self, DecodeError>)
        ensures
            match BodyView::parse(command_id, buf@) {
                Ok(body) => r matches Ok(b) && b@ == body,
                Err(e) => r == Err::<Self, DecodeError>(e),
            },
    {
        if command_id == BIND_RECEIVER_ID {
            Ok(SmppBody::BindReceiver(BindReceiver::decode(buf)?))
        } else if command_id == BIND_RECEIVER_RESP_ID {
            Ok(SmppBody::BindReceiverResp(BindReceiverResp::decode(buf)?))
        } else if command_id == BIND_TRANSMITTER_ID {
            Ok(SmppBody::BindTransmitter(BindTransmitter::decode(buf)?))
        } else if command_id == BIND_TRANSMITTER_RESP_ID {
            Ok(SmppBody::BindTransmitterResp(BindTransmitterResp::decode(buf)?))
        } else if command_id == QUERY_SM_ID {
            Ok(SmppBody::QuerySm(QuerySm::decode(buf)?))
        } else if command_id == QUERY_SM_RESP_ID {
            Ok(SmppBody::QuerySmResp(QuerySmResp::decode(buf)?))
        } else if command_id == SUBMIT_SM_ID {
            Ok(SmppBody::SubmitSm(SubmitSm::decode(buf)?))
        } else if command_id == SUBMIT_SM_RESP_ID {
            Ok(SmppBody::SubmitSmResp(SubmitSmResp::decode(buf)?))
        } else if command_id == DELIVER_SM_ID {
            Ok(SmppBody::DeliverSm(DeliverSm::decode(buf)?))
        } else if command_id == DELIVER_SM_RESP_ID {
            Ok(SmppBody::DeliverSmResp(DeliverSmResp::decode(buf)?))
        } else if command_id == UNBIND_ID {
            Ok(SmppBody::Unbind(Unbind::decode(buf)?))
        } else if command_id == UNBIND_RESP_ID {
            Ok(SmppBody::UnbindResp(UnbindResp::decode(buf)?))
        } else if command_id == REPLACE_SM_ID {
            Ok(SmppBody::ReplaceSm(ReplaceSm::decode(buf)?))
        } else if command_id == REPLACE_SM_RESP_ID {
            Ok(SmppBody::ReplaceSmResp(ReplaceSmResp::decode(buf)?))
        } else if command_id == CANCEL_SM_ID {
            Ok(SmppBody::CancelSm(CancelSm::decode(buf)?))
        } else if command_id == CANCEL_SM_RESP_ID {
            Ok(SmppBody::CancelSmResp(CancelSmResp::decode(buf)?))
        } else if command_id == BIND_TRANSCEIVER_ID {
            Ok(SmppBody::BindTransceiver(BindTransceiver::decode(buf)?))
        } else if command_id == BIND_TRANSCEIVER_RESP_ID {
            Ok(SmppBody::BindTransceiverResp(BindTransceiverResp::decode(buf)?))
        } else if command_id == OUTBIND_ID {
            Ok(SmppBody::Outbind(Outbind::decode(buf)?))
        } else if command_id == ENQUIRE_LINK_ID {
            Ok(SmppBody::EnquireLink(EnquireLink::decode(buf)?))
        } else if command_id == ENQUIRE_LINK_RESP_ID {
            Ok(SmppBody::EnquireLinkResp(EnquireLinkResp::decode(buf)?))
        } else if command_id == SUBMIT_MULTI_ID {
            Ok(SmppBody::SubmitMulti(SubmitMulti::decode(buf)?))
        } else if command_id == SUBMIT_MULTI_RESP_ID {
            Ok(SmppBody::SubmitMultiResp(SubmitMultiResp::decode(buf)?))
        } else {
            Err(DecodeError::UnsupportedCommand)
        }
    }
}

/// One protocol data unit: a header and the body it announces.
#[derive(Debug, Clone, PartialEq, Eq)]
pub struct SmppPdu {
    pub header: SmppHeader,
    pub body: SmppBody,
}

/// What a protocol data unit holds, as plain values.
pub struct PduView {
    pub header: SmppHeader,
    pub body: BodyView,
}

impl View for SmppPdu {
    type V = PduView;

    open spec fn view(&self) -> PduView {
        PduView { header: self.header, body: self.body@ }
    }
}

impl PduView {
    /// The number of bytes of the unit's frame: the header's and the body's.
    pub open spec fn frame_length(self) -> int {
        HEADER_LENGTH + self.body.wire().len()
    }

    /// True of a unit that can be written: the counts in its body are right
    /// and the length of its frame fits the header's field.
    pub open spec fn encodable(self) -> bool {
        self.body.wf() && self.frame_length() <= u32::MAX
    }

    /// The unit with the length of its frame in the header: the unit that its
    /// frame holds.
    pub open spec fn framed(self) -> PduView {
        PduView {
            header: SmppHeader {
                command_length: self.frame_length() as u32,
                command_id: self.header.command_id,
                command_status: self.header.command_status,
                sequence_number: self.header.sequence_number,
            },
            body: self.body,
        }
    }

    /// The frame of the unit: the header, with the length of the frame in
    /// place of whatever `command_length` holds, and the body behind it.
    pub open spec fn wire(self) -> Seq<u8> {
        self.framed().header.wire() + self.body.wire()
    }

    /// True of a unit that comes back from the wire as it went: its body is
    /// valid, and its header has the body's command id and the length of the
    /// frame.
    pub open spec fn valid(self) -> bool {
        &&& self.body.valid()
        &&& self.header.command_id == self.body.command_id()
        &&& self.header.command_length == self.frame_length()
    }

    /// Reads a unit from a frame. A frame of fewer than sixteen bytes has no
    /// header; one whose header declares another length than it has is
    /// refused; then the body is read as the command id says.
    pub open spec fn parse(frame: Seq<u8>) -> Result<PduView, DecodeError> {
        match SmppHeader::parse(frame) {
            Err(e) => Err(e),
            Ok((header, input)) => if header.command_length != frame.len() {
                Err(DecodeError::LengthMismatch)
            } else {
                match BodyView::parse(header.command_id, input) {
                    Err(e) => Err(e),
                    Ok(body) => Ok(PduView { header, body }),
                }
            },
        }
    }
}

/// The frame of a unit is as long as its header says, and starts with that
/// length: for every unit that can be written, whatever its own
/// `command_length` holds.
pub proof fn law_frame_carries_its_length(pdu: PduView)
    requires
        pdu.encodable(),
    ensures
        pdu.wire().len() == pdu.frame_length(),
        pdu.wire().len() == pdu.framed().header.command_length,
        pdu.wire().subrange(0, 4) == be32(pdu.wire().len() as u32),
        pdu.header.command_length == pdu.frame_length() ==> pdu.wire().len()
            == pdu.header.command_length,
{
    pdu.framed().header.lemma_wire_shape();
    assert(pdu.wire().subrange(0, 4) =~= pdu.framed().header.wire().subrange(0, 4));
}

/// Decoding the frame of a unit gives the unit that the frame holds: the
/// same body, and the same header but for the length, which is that of the
/// frame. This holds of every unit with a valid body under its own command
/// id whose frame is not too long.
pub proof fn law_decode_inverts_encode(pdu: PduView)
    requires
        pdu.body.valid(),
        pdu.header.command_id == pdu.body.command_id(),
        pdu.frame_length() <= u32::MAX,
    ensures
        pdu.encodable(),
        PduView::parse(pdu.wire()) == Ok::<PduView, DecodeError>(pdu.framed()),
{
    let header = pdu.framed().header;
    pdu.body.lemma_valid_wf();
    header.lemma_wire_shape();
    header.lemma_parse_wire(pdu.body.wire());
    pdu.body.lemma_parse_wire();
}

/// Round trip: a valid unit, whose header has the length of its frame, comes
/// back from its frame as it went, in every variant of the body.
pub proof fn law_round_trip(pdu: PduView)
    requires
        pdu.valid(),
    ensures
        pdu.encodable(),
        PduView::parse(pdu.wire()) == Ok::<PduView, DecodeError>(pdu),
{
    law_decode_inverts_encode(pdu);
    assert(pdu.framed() == pdu);
}

/// What a frame holds is a unit with a valid body under its own command id,
/// and can be written again.
pub proof fn law_decoded_unit_is_valid(frame: Seq<u8>)
    ensures
        PduView::parse(frame) matches Ok(pdu) ==> {
            &&& pdu.body.valid()
            &&& pdu.header.command_id == pdu.body.command_id()
            &&& pdu.header.command_length == frame.len()
            &&& pdu.encodable()
        },
{
    if let Ok((header, input)) = SmppHeader::parse(frame) {
        BodyView::lemma_wire_parse(header.command_id, input);
        if let Ok(body) = BodyView::parse(header.command_id, input) {
            body.lemma_valid_wf();
        }
    }
}

/// A frame of fewer than sixteen bytes has no header, whatever it holds.
pub proof fn law_short_frame_has_no_header(frame: Seq<u8>)
    requires
        frame.len() < HEADER_LENGTH,
    ensures
        PduView::parse(frame) == Err::<PduView, DecodeError>(DecodeError::TruncatedHeader),
{
}

impl SmppPdu {
    /// Puts the header before the bytes of the body, with the length of the
    /// frame in it.
    fn frame(&self, body_buf: Vec<u8>) -> (buf: Vec<u8>)
        requires
            body_buf@ == self@.body.wire(),
            self@.frame_length() <= u32::MAX,
        ensures
            buf@ == self@.wire(),
    {
        let mut body_buf = body_buf;
        let command_length = (body_buf.len() + HEADER_LENGTH) as u32;
        let header = SmppHeader {
            command_length,
            command_id: self.header.command_id,
            command_status: self.header.command_status,
            sequence_number: self.header.sequence_number,
        };
        let mut buf = header.encode();
        buf.append(&mut body_buf);
        buf
    }

    /// The frame of the unit. The header's `command_length` is not read: the
    /// frame carries its own length there.
    pub fn encode(&self) -> (buf: Vec<u8>)
        requires
            self@.encodable(),
        ensures
            buf@ == self@.wire(),
            buf@.len() == self@.frame_length(),
            buf@.subrange(0, 4) == be32(buf@.len() as u32),
            self@.header.command_length == self@.frame_length() ==> buf@.len()
                == self.header.command_length,
    {
        proof {
            law_frame_carries_its_length(self@);
        }
        self.frame(self.body.encode())
    }

    /// The frame of the unit, where it has one: none where a count in the
    /// body is wrong or the frame would be longer than its length field can
    /// say.
    pub fn checked_encode(&self) -> (r: Option<Vec<u8>>)
        ensures
            match r {
                Some(buf) => self@.encodable() && buf@ == self@.wire(),
                None => !self@.encodable(),
            },
    {
        if !self.body.is_well_formed() {
            return None;
        }
        let body_buf = self.body.encode();
        if body_buf.len() > u32::MAX as usize - HEADER_LENGTH {
            return None;
        }
        Some(self.frame(body_buf))
    }

    /// Reads a unit from a frame: all of it, or the reason why there is none.
    pub fn decode(buf: &[u8]) -> (r: Result<Self, DecodeError>)
        ensures
            match PduView::parse(buf@) {
                Ok(pdu) => r matches Ok(p) && p@ == pdu,
                Err(e) => r == Err::<Self, DecodeError>(e),
            },
            buf@.len() < HEADER_LENGTH ==> r == Err::<Self, DecodeError>(
                DecodeError::TruncatedHeader,
            ),
    {
        let header = SmppHeader::decode(buf)?;
        if header.command_length as usize != buf.len() {
            return Err(DecodeError::LengthMismatch);
        }
        let body = SmppBody::decode(
            header.command_id,
            vstd::slice::slice_subrange(buf, HEADER_LENGTH, buf.len()),
        )?;
        Ok(SmppPdu { header, body })
    }
}

} // verus!
