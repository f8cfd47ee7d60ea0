//! The command ids of the protocol: the number in a header that says which
//! body follows it. A response has the id of its request with the top bit set.

use vstd::prelude::*;

verus! {

pub const BIND_RECEIVER_ID: u32 = 0x0000_0001;

pub const BIND_RECEIVER_RESP_ID: u32 = 0x8000_0001;

pub const BIND_TRANSMITTER_ID: u32 = 0x0000_0002;

pub const BIND_TRANSMITTER_RESP_ID: u32 = 0x8000_0002;

pub const QUERY_SM_ID: u32 = 0x0000_0003;

pub const QUERY_SM_RESP_ID: u32 = 0x8000_0003;

pub const SUBMIT_SM_ID: u32 = 0x0000_0004;

pub const SUBMIT_SM_RESP_ID: u32 = 0x8000_0004;

pub const DELIVER_SM_ID: u32 = 0x0000_0005;

pub const DELIVER_SM_RESP_ID: u32 = 0x8000_0005;

pub const UNBIND_ID: u32 = 0x0000_0006;

pub const UNBIND_RESP_ID: u32 = 0x8000_0006;

pub const REPLACE_SM_ID: u32 = 0x0000_0007;

pub const REPLACE_SM_RESP_ID: u32 = 0x8000_0007;

pub const CANCEL_SM_ID: u32 = 0x0000_0008;

pub const CANCEL_SM_RESP_ID: u32 = 0x8000_0008;

pub const BIND_TRANSCEIVER_ID: u32 = 0x0000_0009;

pub const BIND_TRANSCEIVER_RESP_ID: u32 = 0x8000_0009;

pub const OUTBIND_ID: u32 = 0x0000_000B;

pub const ENQUIRE_LINK_ID: u32 = 0x0000_0015;

pub const ENQUIRE_LINK_RESP_ID: u32 = 0x8000_0015;

pub const SUBMIT_MULTI_ID: u32 = 0x0000_0021;

pub const SUBMIT_MULTI_RESP_ID: u32 = 0x8000_0021;

} // verus!
