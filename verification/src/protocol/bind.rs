//! The bodies of the bind handshake: the three bind requests, which share one
//! layout, their responses, and the outbind request.

use crate::wire::{
    and_then, byte, c_text, cstring, lemma_parse_cstring, lemma_parse_cstring_regroup,
    lemma_parse_u8, lemma_parsed_cstring, lemma_parsed_u8, lemma_same_bytes_regroup,
    lemma_tail_start, parse_cstring, parse_u8, read_cstring, read_u8, same_bytes,
    write_cstring, write_u8, DecodeError, Parsed,
};
use vstd::prelude::*;

verus! {

/// What a bind request holds, as plain values.
pub struct BindView {
    pub system_id: Seq<char>,
    pub password: Seq<char>,
    pub system_type: Seq<char>,
    pub interface_version: u8,
    pub addr_ton: u8,
    pub addr_npi: u8,
    pub address_range: Seq<char>,
}

impl BindView {
    /// A bind request on the wire: its fields in this order.
    pub open spec fn wire(self) -> Seq<u8> {
        cstring(self.system_id)
            + cstring(self.password)
            + cstring(self.system_type)
            + byte(self.interface_version)
            + byte(self.addr_ton)
            + byte(self.addr_npi)
            + cstring(self.address_range)
    }

    /// Reads a bind request off the input, field by field; the first field that
    /// cannot be read gives the error.
    #[verifier::opaque]
    pub open spec fn parse(input: Seq<u8>) -> Parsed<BindView> {
        and_then(parse_cstring(input), |system_id: Seq<char>, input: Seq<u8>|
        and_then(parse_cstring(input), |password: Seq<char>, input: Seq<u8>|
        and_then(parse_cstring(input), |system_type: Seq<char>, input: Seq<u8>|
        and_then(parse_u8(input), |interface_version: u8, input: Seq<u8>|
        and_then(parse_u8(input), |addr_ton: u8, input: Seq<u8>|
        and_then(parse_u8(input), |addr_npi: u8, input: Seq<u8>|
        and_then(parse_cstring(input), |address_range: Seq<char>, input: Seq<u8>|
        Ok(
            (
                BindView {
                    system_id,
                    password,
                    system_type,
                    interface_version,
                    addr_ton,
                    addr_npi,
                    address_range,
                },
                input,
            ),
        ))))))))
    }

    /// True of a value that comes back from the wire as it went: no string holds a NUL
    /// character.
    pub open spec fn valid(self) -> bool {
        &&& c_text(self.system_id)
        &&& c_text(self.password)
        &&& c_text(self.system_type)
        &&& c_text(self.address_range)
    }

    /// A valid value that was written is read back, and the input goes on with
    /// what stood behind it.
    pub proof fn lemma_parse_wire(self, rest: Seq<u8>)
        requires
            self.valid(),
        ensures
            Self::parse(self.wire() + rest) == Ok::<(BindView, Seq<u8>), DecodeError>(
                (self, rest),
            ),
    {
        broadcast use {lemma_parse_cstring_regroup, lemma_parse_cstring, lemma_parse_u8};

        reveal(BindView::parse);
    }

    /// A value that is read is valid, and its bytes stood at the front of the
    /// input.
    pub proof fn lemma_wire_parse(input: Seq<u8>)
        ensures
            Self::parse(input) matches Ok((value, rest)) ==> value.valid() && input
                == value.wire() + rest,
    {
        broadcast use {lemma_parsed_cstring, lemma_parsed_u8, lemma_same_bytes_regroup};

        reveal(BindView::parse);
        if let Ok((value, rest)) = Self::parse(input) {
            assert(same_bytes(value.wire() + rest, input));
        }
    }
}

/// What the response to a bind request holds, as plain values.
pub struct BindRespView {
    pub system_id: Seq<char>,
}

impl BindRespView {
    /// A bind response on the wire: its fields in this order.
    pub open spec fn wire(self) -> Seq<u8> {
        cstring(self.system_id)
    }

    /// Reads a bind response off the input, field by field; the first field that
    /// cannot be read gives the error.
    #[verifier::opaque]
    pub open spec fn parse(input: Seq<u8>) -> Parsed<BindRespView> {
        and_then(parse_cstring(input), |system_id: Seq<char>, input: Seq<u8>|
        Ok((BindRespView { system_id }, input)))
    }

    /// True of a value that comes back from the wire as it went: no string holds a NUL
    /// character.
    pub open spec fn valid(self) -> bool {
        &&& c_text(self.system_id)
    }

    /// A valid value that was written is read back, and the input goes on with
    /// what stood behind it.
    pub proof fn lemma_parse_wire(self, rest: Seq<u8>)
        requires
            self.valid(),
        ensures
            Self::parse(self.wire() + rest) == Ok::<(BindRespView, Seq<u8>), DecodeError>(
                (self, rest),
            ),
    {
        broadcast use {lemma_parse_cstring};

        reveal(BindRespView::parse);
    }

    /// A value that is read is valid, and its bytes stood at the front of the
    /// input.
    pub proof fn lemma_wire_parse(input: Seq<u8>)
        ensures
            Self::parse(input) matches Ok((value, rest)) ==> value.valid() && input
                == value.wire() + rest,
    {
        broadcast use {lemma_parsed_cstring};

        reveal(BindRespView::parse);
        if let Ok((value, rest)) = Self::parse(input) {
            assert(same_bytes(value.wire() + rest, input));
        }
    }
}

/// What an outbind request holds, as plain values.
pub struct OutbindView {
    pub system_id: Seq<char>,
    pub password: Seq<char>,
}

impl OutbindView {
    /// An outbind request on the wire: its fields in this order.
    pub open spec fn wire(self) -> Seq<u8> {
        cstring(self.system_id)
            + cstring(self.password)
    }

    /// Reads an outbind request off the input, field by field; the first field that
    /// cannot be read gives the error.
    #[verifier::opaque]
    pub open spec fn parse(input: Seq<u8>) -> Parsed<OutbindView> {
        and_then(parse_cstring(input), |system_id: Seq<char>, input: Seq<u8>|
        and_then(parse_cstring(input), |password: Seq<char>, input: Seq<u8>|
        Ok((OutbindView { system_id, password }, input))))
    }

    /// True of a value that comes back from the wire as it went: no string holds a NUL
    /// character.
    pub open spec fn valid(self) -> bool {
        &&& c_text(self.system_id)
        &&& c_text(self.password)
    }

    /// A valid value that was written is read back, and the input goes on with
    /// what stood behind it.
    pub proof fn lemma_parse_wire(self, rest: Seq<u8>)
        requires
            self.valid(),
        ensures
            Self::parse(self.wire() + rest) == Ok::<(OutbindView, Seq<u8>), DecodeError>(
                (self, rest),
            ),
    {
        broadcast use {lemma_parse_cstring_regroup, lemma_parse_cstring};

        reveal(OutbindView::parse);
    }

    /// A value that is read is valid, and its bytes stood at the front of the
    /// input.
    pub proof fn lemma_wire_parse(input: Seq<u8>)
        ensures
            Self::parse(input) matches Ok((value, rest)) ==> value.valid() && input
                == value.wire() + rest,
    {
        broadcast use {lemma_parsed_cstring, lemma_same_bytes_regroup};

        reveal(OutbindView::parse);
        if let Ok((value, rest)) = Self::parse(input) {
            assert(same_bytes(value.wire() + rest, input));
        }
    }
}

/// Asks to open a session that receives messages.
#[derive(Debug, Clone, PartialEq, Eq)]
pub struct BindReceiver {
    pub system_id: String,
    pub password: String,
    pub system_type: String,
    pub interface_version: u8,
    pub addr_ton: u8,
    pub addr_npi: u8,
    pub address_range: String,
}

impl View for BindReceiver {
    type V = BindView;

    open spec fn view(&self) -> BindView {
        BindView {
            system_id: self.system_id@,
            password: self.password@,
            system_type: self.system_type@,
            interface_version: self.interface_version,
            addr_ton: self.addr_ton,
            addr_npi: self.addr_npi,
            address_range: self.address_range@,
        }
    }
}

impl BindReceiver {
    /// The bytes of the body.
    pub fn encode(&self) -> (buf: Vec<u8>)
        ensures
            buf@ == self@.wire(),
    {
        let mut buf = Vec::new();
        write_cstring(&mut buf, self.system_id.as_str());
        write_cstring(&mut buf, self.password.as_str());
        write_cstring(&mut buf, self.system_type.as_str());
        write_u8(&mut buf, self.interface_version);
        write_u8(&mut buf, self.addr_ton);
        write_u8(&mut buf, self.addr_npi);
        write_cstring(&mut buf, self.address_range.as_str());
        assert(buf@ =~= self@.wire());
        buf
    }

    /// Reads the body from the start of `buf`; bytes behind the last field are
    /// left unread.
    pub fn decode(buf: &[u8]) -> (r: Result<Self, DecodeError>)
        ensures
            match BindView::parse(buf@) {
                Ok((body, _)) => r matches Ok(b) && b@ == body,
                Err(e) => r == Err::<Self, DecodeError>(e),
            },
    {
        broadcast use lemma_tail_start;

        proof {
            reveal(BindView::parse);
        }
        let mut offset: usize = 0;
        let system_id = read_cstring(buf, &mut offset)?;
        let password = read_cstring(buf, &mut offset)?;
        let system_type = read_cstring(buf, &mut offset)?;
        let interface_version = read_u8(buf, &mut offset)?;
        let addr_ton = read_u8(buf, &mut offset)?;
        let addr_npi = read_u8(buf, &mut offset)?;
        let address_range = read_cstring(buf, &mut offset)?;
        Ok(
            BindReceiver {
                system_id,
                password,
                system_type,
                interface_version,
                addr_ton,
                addr_npi,
                address_range,
            },
        )
    }
}

/// Answers a [`BindReceiver`].
#[derive(Debug, Clone, PartialEq, Eq)]
pub struct BindReceiverResp {
    pub system_id: String,
}

impl View for BindReceiverResp {
    type V = BindRespView;

    open spec fn view(&self) -> BindRespView {
        BindRespView {
            system_id: self.system_id@,
        }
    }
}

impl BindReceiverResp {
    /// The bytes of the body.
    pub fn encode(&self) -> (buf: Vec<u8>)
        ensures
            buf@ == self@.wire(),
    {
        let mut buf = Vec::new();
        write_cstring(&mut buf, self.system_id.as_str());
        assert(buf@ =~= self@.wire());
        buf
    }

    /// Reads the body from the start of `buf`; bytes behind the last field are
    /// left unread.
    pub fn decode(buf: &[u8]) -> (r: Result<Self, DecodeError>)
        ensures
            match BindRespView::parse(buf@) {
                Ok((body, _)) => r matches Ok(b) && b@ == body,
                Err(e) => r == Err::<Self, DecodeError>(e),
            },
    {
        broadcast use lemma_tail_start;

        proof {
            reveal(BindRespView::parse);
        }
        let mut offset: usize = 0;
        let system_id = read_cstring(buf, &mut offset)?;
        Ok(BindReceiverResp { system_id })
    }
}

/// Asks to open a session that submits messages.
#[derive(Debug, Clone, PartialEq, Eq)]
pub struct BindTransmitter {
    pub system_id: String,
    pub password: String,
    pub system_type: String,
    pub interface_version: u8,
    pub addr_ton: u8,
    pub addr_npi: u8,
    pub address_range: String,
}

impl View for BindTransmitter {
    type V = BindView;

    open spec fn view(&self) -> BindView {
        BindView {
            system_id: self.system_id@,
            password: self.password@,
            system_type: self.system_type@,
            interface_version: self.interface_version,
            addr_ton: self.addr_ton,
            addr_npi: self.addr_npi,
            address_range: self.address_range@,
        }
    }
}

impl BindTransmitter {
    /// The bytes of the body.
    pub fn encode(&self) -> (buf: Vec<u8>)
        ensures
            buf@ == self@.wire(),
    {
        let mut buf = Vec::new();
        write_cstring(&mut buf, self.system_id.as_str());
        write_cstring(&mut buf, self.password.as_str());
        write_cstring(&mut buf, self.system_type.as_str());
        write_u8(&mut buf, self.interface_version);
        write_u8(&mut buf, self.addr_ton);
        write_u8(&mut buf, self.addr_npi);
        write_cstring(&mut buf, self.address_range.as_str());
        assert(buf@ =~= self@.wire());
        buf
    }

    /// Reads the body from the start of `buf`; bytes behind the last field are
    /// left unread.
    pub fn decode(buf: &[u8]) -> (r: Result<Self, DecodeError>)
        ensures
            match BindView::parse(buf@) {
                Ok((body, _)) => r matches Ok(b) && b@ == body,
                Err(e) => r == Err::<Self, DecodeError>(e),
            },
    {
        broadcast use lemma_tail_start;

        proof {
            reveal(BindView::parse);
        }
        let mut offset: usize = 0;
        let system_id = read_cstring(buf, &mut offset)?;
        let password = read_cstring(buf, &mut offset)?;
        let system_type = read_cstring(buf, &mut offset)?;
        let interface_version = read_u8(buf, &mut offset)?;
        let addr_ton = read_u8(buf, &mut offset)?;
        let addr_npi = read_u8(buf, &mut offset)?;
        let address_range = read_cstring(buf, &mut offset)?;
        Ok(
            BindTransmitter {
                system_id,
                password,
                system_type,
                interface_version,
                addr_ton,
                addr_npi,
                address_range,
            },
        )
    }
}

/// Answers a [`BindTransmitter`].
#[derive(Debug, Clone, PartialEq, Eq)]
pub struct BindTransmitterResp {
    pub system_id: String,
}

impl View for BindTransmitterResp {
    type V = BindRespView;

    open spec fn view(&self) -> BindRespView {
        BindRespView {
            system_id: self.system_id@,
        }
    }
}

impl BindTransmitterResp {
    /// A response that names the message center `system_id`.
    pub fn new(system_id: String) -> (r: BindTransmitterResp)
        ensures
            r@ == (BindRespView { system_id: system_id@ }),
    {
        BindTransmitterResp { system_id }
    }

    /// The bytes of the body.
    pub fn encode(&self) -> (buf: Vec<u8>)
        ensures
            buf@ == self@.wire(),
    {
        let mut buf = Vec::new();
        write_cstring(&mut buf, self.system_id.as_str());
        assert(buf@ =~= self@.wire());
        buf
    }

    /// Reads the body from the start of `buf`; bytes behind the last field are
    /// left unread.
    pub fn decode(buf: &[u8]) -> (r: Result<Self, DecodeError>)
        ensures
            match BindRespView::parse(buf@) {
                Ok((body, _)) => r matches Ok(b) && b@ == body,
                Err(e) => r == Err::<Self, DecodeError>(e),
            },
    {
        broadcast use lemma_tail_start;

        proof {
            reveal(BindRespView::parse);
        }
        let mut offset: usize = 0;
        let system_id = read_cstring(buf, &mut offset)?;
        Ok(BindTransmitterResp { system_id })
    }
}

/// Asks to open a session that both submits and receives messages.
#[derive(Debug, Clone, PartialEq, Eq)]
pub struct BindTransceiver {
    pub system_id: String,
    pub password: String,
    pub system_type: String,
    pub interface_version: u8,
    pub addr_ton: u8,
    pub addr_npi: u8,
    pub address_range: String,
}

impl View for BindTransceiver {
    type V = BindView;

    open spec fn view(&self) -> BindView {
        BindView {
            system_id: self.system_id@,
            password: self.password@,
            system_type: self.system_type@,
            interface_version: self.interface_version,
            addr_ton: self.addr_ton,
            addr_npi: self.addr_npi,
            address_range: self.address_range@,
        }
    }
}

impl BindTransceiver {
    /// The bytes of the body.
    pub fn encode(&self) -> (buf: Vec<u8>)
        ensures
            buf@ == self@.wire(),
    {
        let mut buf = Vec::new();
        write_cstring(&mut buf, self.system_id.as_str());
        write_cstring(&mut buf, self.password.as_str());
        write_cstring(&mut buf, self.system_type.as_str());
        write_u8(&mut buf, self.interface_version);
        write_u8(&mut buf, self.addr_ton);
        write_u8(&mut buf, self.addr_npi);
        write_cstring(&mut buf, self.address_range.as_str());
        assert(buf@ =~= self@.wire());
        buf
    }

    /// Reads the body from the start of `buf`; bytes behind the last field are
    /// left unread.
    pub fn decode(buf: &[u8]) -> (r: Result<Self, DecodeError>)
        ensures
            match BindView::parse(buf@) {
                Ok((body, _)) => r matches Ok(b) && b@ == body,
                Err(e) => r == Err::<Self, DecodeError>(e),
            },
    {
        broadcast use lemma_tail_start;

        proof {
            reveal(BindView::parse);
        }
        let mut offset: usize = 0;
        let system_id = read_cstring(buf, &mut offset)?;
        let password = read_cstring(buf, &mut offset)?;
        let system_type = read_cstring(buf, &mut offset)?;
        let interface_version = read_u8(buf, &mut offset)?;
        let addr_ton = read_u8(buf, &mut offset)?;
        let addr_npi = read_u8(buf, &mut offset)?;
        let address_range = read_cstring(buf, &mut offset)?;
        Ok(
            BindTransceiver {
                system_id,
                password,
                system_type,
                interface_version,
                addr_ton,
                addr_npi,
                address_range,
            },
        )
    }
}

/// Answers a [`BindTransceiver`].
#[derive(Debug, Clone, PartialEq, Eq)]
pub struct BindTransceiverResp {
    pub system_id: String,
}

impl View for BindTransceiverResp {
    type V = BindRespView;

    open spec fn view(&self) -> BindRespView {
        BindRespView {
            system_id: self.system_id@,
        }
    }
}

impl BindTransceiverResp {
    /// The bytes of the body.
    pub fn encode(&self) -> (buf: Vec<u8>)
        ensures
            buf@ == self@.wire(),
    {
        let mut buf = Vec::new();
        write_cstring(&mut buf, self.system_id.as_str());
        assert(buf@ =~= self@.wire());
        buf
    }

    /// Reads the body from the start of `buf`; bytes behind the last field are
    /// left unread.
    pub fn decode(buf: &[u8]) -> (r: Result<Self, DecodeError>)
        ensures
            match BindRespView::parse(buf@) {
                Ok((body, _)) => r matches Ok(b) && b@ == body,
                Err(e) => r == Err::<Self, DecodeError>(e),
            },
    {
        broadcast use lemma_tail_start;

        proof {
            reveal(BindRespView::parse);
        }
        let mut offset: usize = 0;
        let system_id = read_cstring(buf, &mut offset)?;
        Ok(BindTransceiverResp { system_id })
    }
}

/// Sent by the message center to ask the client to bind as a receiver.
#[derive(Debug, Clone, PartialEq, Eq)]
pub struct Outbind {
    pub system_id: String,
    pub password: String,
}

impl View for Outbind {
    type V = OutbindView;

    open spec fn view(&self) -> OutbindView {
        OutbindView {
            system_id: self.system_id@,
            password: self.password@,
        }
    }
}

impl Outbind {
    /// The bytes of the body.
    pub fn encode(&self) -> (buf: Vec<u8>)
        ensures
            buf@ == self@.wire(),
    {
        let mut buf = Vec::new();
        write_cstring(&mut buf, self.system_id.as_str());
        write_cstring(&mut buf, self.password.as_str());
        assert(buf@ =~= self@.wire());
        buf
    }

    /// Reads the body from the start of `buf`; bytes behind the last field are
    /// left unread.
    pub fn decode(buf: &[u8]) -> (r: Result<Self, DecodeError>)
        ensures
            match OutbindView::parse(buf@) {
                Ok((body, _)) => r matches Ok(b) && b@ == body,
                Err(e) => r == Err::<Self, DecodeError>(e),
            },
    {
        broadcast use lemma_tail_start;

        proof {
            reveal(OutbindView::parse);
        }
        let mut offset: usize = 0;
        let system_id = read_cstring(buf, &mut offset)?;
        let password = read_cstring(buf, &mut offset)?;
        Ok(Outbind { system_id, password })
    }
}

} // verus!
