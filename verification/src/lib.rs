//! Client side of an SMPP-style short message protocol.
//!
//! - [`wire`]: the formats of single fields, each with the specification
//!   function that gives its bytes and the one that parses it.
//! - [`protocol`]: the header, the body of every command, and the codec
//!   between protocol data units and frames, with the laws that the two
//!   directions obey.
//! - [`constant`]: the command ids.
//! - [`bound_atomic`]: the sequence numbers that pair a response with its
//!   request.
//! - [`session`]: the state of a session and what each event does to it; the
//!   transport itself is the caller's.
//! - [`std_text`]: what is taken for granted of the standard library.

pub mod bound_atomic;
pub mod constant;
pub mod protocol;
pub mod session;
pub mod std_text;
pub mod wire;
