//! The bodies without fields: unbind and enquire-link, with their responses.

use crate::wire::DecodeError;
use vstd::prelude::*;

verus! {

/// Asks to end the session.
#[derive(Debug, Clone, PartialEq, Eq)]
pub struct Unbind {}

impl Unbind {
    /// The bytes of the body: none.
    pub fn encode(&self) -> (buf: Vec<u8>)
        ensures
            buf@ == Seq::<u8>::empty(),
    {
        Vec::new()
    }

    /// Reads the body, which has no fields: whatever `buf` holds is left unread.
    pub fn decode(buf: &[u8]) -> (r: Result<Self, DecodeError>)
        ensures
            r == Ok::<Self, DecodeError>(Unbind {}),
    {
        Ok(Unbind {})
    }
}

/// Answers an [`Unbind`].
#[derive(Debug, Clone, PartialEq, Eq)]
pub struct UnbindResp {}

impl UnbindResp {
    /// The bytes of the body: none.
    pub fn encode(&self) -> (buf: Vec<u8>)
        ensures
            buf@ == Seq::<u8>::empty(),
    {
        Vec::new()
    }

    /// Reads the body, which has no fields: whatever `buf` holds is left unread.
    pub fn decode(buf: &[u8]) -> (r: Result<Self, DecodeError>)
        ensures
            r == Ok::<Self, DecodeError>(UnbindResp {}),
    {
        Ok(UnbindResp {})
    }
}

/// Asks the peer whether the link is alive.
#[derive(Debug, Clone, PartialEq, Eq)]
pub struct EnquireLink {}

impl EnquireLink {
    /// The bytes of the body: none.
    pub fn encode(&self) -> (buf: Vec<u8>)
        ensures
            buf@ == Seq::<u8>::empty(),
    {
        Vec::new()
    }

    /// Reads the body, which has no fields: whatever `buf` holds is left unread.
    pub fn decode(buf: &[u8]) -> (r: Result<Self, DecodeError>)
        ensures
            r == Ok::<Self, DecodeError>(EnquireLink {}),
    {
        Ok(EnquireLink {})
    }
}

/// Answers an [`EnquireLink`].
#[derive(Debug, Clone, PartialEq, Eq)]
pub struct EnquireLinkResp {}

impl EnquireLinkResp {
    /// The bytes of the body: none.
    pub fn encode(&self) -> (buf: Vec<u8>)
        ensures
            buf@ == Seq::<u8>::empty(),
    {
        Vec::new()
    }

    /// Reads the body, which has no fields: whatever `buf` holds is left unread.
    pub fn decode(buf: &[u8]) -> (r: Result<Self, DecodeError>)
        ensures
            r == Ok::<Self, DecodeError>(EnquireLinkResp {}),
    {
        Ok(EnquireLinkResp {})
    }
}

} // verus!
