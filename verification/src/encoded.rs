//! Payloads: a call given in full or by the hash of its bytes, and the bounded
//! encoded form in which the agenda keeps it.

use frame_support::traits::schedule::MaybeHashed;
use parity_scale_codec::{Decode, Encode};
use vstd::prelude::*;

use crate::primitives::{CallHash, Error};

verus! {

/// What a task runs: the call itself, or the hash under which the payload
/// resolver knows it.
#[derive(Debug, PartialEq, Eq)]
pub enum CallOrHashOf {
    /// The call itself.
    Value(Vec<u8>),
    /// The hash of the call.
    Hash(CallHash),
}

/// Mathematical value of a [`CallOrHashOf`].
pub enum CallOrHashView {
    Value(Seq<u8>),
    Hash(CallHash),
}

impl View for CallOrHashOf {
    type V = CallOrHashView;

    open spec fn view(&self) -> CallOrHashView {
        match *self {
            CallOrHashOf::Value(call) => CallOrHashView::Value(call@),
            CallOrHashOf::Hash(hash) => CallOrHashView::Hash(hash),
        }
    }
}

/// Mathematical value of an optional payload.
pub open spec fn decoded_view(decoded: Option<CallOrHashOf>) -> Option<CallOrHashView> {
    match decoded {
        Some(inner) => Some(inner@),
        None => None,
    }
}

/// The bytes that the SCALE codec writes for a payload.
pub uninterp spec fn scale_encoding(inner: CallOrHashView) -> Seq<u8>;

/// The payload that the SCALE codec reads from the given bytes, if it reads one.
pub uninterp spec fn scale_decoding(bytes: Seq<u8>) -> Option<CallOrHashView>;

/// Whether the codec can encode a payload: it writes the length of a call
/// in 32 bits.
pub open spec fn encodable(inner: CallOrHashView) -> bool {
    inner is Value ==> inner->Value_0.len() <= u32::MAX
}

/// Whether a payload can be encoded in at most `max_call_len` bytes.
pub open spec fn encodes_within(inner: CallOrHashView, max_call_len: u32) -> bool {
    encodable(inner) && scale_encoding(inner).len() <= max_call_len
}

/// `parity_scale_codec::Encode::encode` on frame_support's
/// `MaybeHashed<Vec<u8>, [u8; 32]>`, as derived there. It panics on a call
/// of more than `u32::MAX` bytes, which is left out. Trusted: the bytes are
/// the codec's encoding of the payload, and the codec reads them back as that
/// payload.
#[verifier::external_body]
fn encode_call_or_hash(inner: CallOrHashOf) -> (bytes: Vec<u8>)
    requires
        encodable(inner@),
    ensures
        bytes@ == scale_encoding(inner@),
        scale_decoding(bytes@) == Some(inner@),
{
    let outside: MaybeHashed<Vec<u8>, [u8; 32]> = match inner {
        CallOrHashOf::Value(call) => MaybeHashed::Value(call),
        CallOrHashOf::Hash(hash) => MaybeHashed::Hash(hash),
    };
    outside.encode()
}

/// `parity_scale_codec::Decode::decode` on frame_support's
/// `MaybeHashed<Vec<u8>, [u8; 32]>`, as derived there. Trusted: the result is
/// the codec's reading of the bytes.
#[verifier::external_body]
fn decode_call_or_hash(bytes: &Vec<u8>) -> (decoded: Option<CallOrHashOf>)
    ensures
        decoded_view(decoded) == scale_decoding(bytes@),
{
    match MaybeHashed::<Vec<u8>, [u8; 32]>::decode(&mut &bytes[..]) {
        Ok(MaybeHashed::Value(call)) => Some(CallOrHashOf::Value(call)),
        Ok(MaybeHashed::Hash(hash)) => Some(CallOrHashOf::Hash(hash)),
        Err(_) => None,
    }
}

/// A payload as the agenda keeps it: encoded, and of bounded length.
#[derive(Debug, PartialEq, Eq)]
pub struct EncodedCallOrHashOf {
    bytes: Vec<u8>,
}

impl EncodedCallOrHashOf {
    /// Every value of this type holds bytes that decode to a payload.
    #[verifier::type_invariant]
    spec fn decodes(self) -> bool {
        scale_decoding(self.bytes@) is Some
    }

    /// The encoded bytes.
    pub closed spec fn bytes(&self) -> Seq<u8> {
        self.bytes@
    }

    /// The payload that the bytes decode to.
    pub open spec fn inner(&self) -> CallOrHashView {
        payload_of(self.bytes())
    }

    /// Encodes a payload. A payload that cannot be encoded in at most
    /// `max_call_len` bytes is refused.
    pub fn new(inner: CallOrHashOf, max_call_len: u32) -> (encoded: Result<Self, Error>)
        ensures
            encoded is Ok <==> encodes_within(inner@, max_call_len),
            encoded is Ok ==> encoded->Ok_0.bytes() == scale_encoding(inner@),
            encoded is Ok ==> encoded->Ok_0.inner() == inner@,
            encoded is Err ==> encoded->Err_0 == Error::CapacityExceeded,
    {
        let short = match &inner {
            CallOrHashOf::Value(call) => fits(call.len(), u32::MAX),
            CallOrHashOf::Hash(_) => true,
        };
        if !short {
            return Err(Error::CapacityExceeded);
        }
        let bytes = encode_call_or_hash(inner);
        if !fits(bytes.len(), max_call_len) {
            return Err(Error::CapacityExceeded);
        }
        Ok(EncodedCallOrHashOf { bytes })
    }

    /// Encodes a call that is given in full.
    pub fn from_call(call: Vec<u8>, max_call_len: u32) -> (encoded: Result<Self, Error>)
        ensures
            encoded is Ok <==> encodes_within(CallOrHashView::Value(call@), max_call_len),
            encoded is Ok ==> encoded->Ok_0.bytes() == scale_encoding(CallOrHashView::Value(call@)),
            encoded is Ok ==> encoded->Ok_0.inner() == CallOrHashView::Value(call@),
            encoded is Err ==> encoded->Err_0 == Error::CapacityExceeded,
    {
        Self::new(CallOrHashOf::Value(call), max_call_len)
    }

    /// Decodes the payload.
    pub fn into_inner(self) -> (inner: CallOrHashOf)
        ensures
            inner@ == self.inner(),
    {
        self.to_inner()
    }

    /// Decodes the payload and keeps the encoded form.
    pub fn to_inner(&self) -> (inner: CallOrHashOf)
        ensures
            inner@ == self.inner(),
    {
        proof {
            use_type_invariant(self);
        }
        match decode_call_or_hash(&self.bytes) {
            Some(inner) => inner,
            None => vstd::pervasive::unreached(),
        }
    }

    /// Number of encoded bytes.
    pub fn encoded_len(&self) -> (len: usize)
        ensures
            len == self.bytes().len(),
    {
        self.bytes.len()
    }
}

/// The payload that the given encoded bytes stand for.
pub open spec fn payload_of(bytes: Seq<u8>) -> CallOrHashView {
    match scale_decoding(bytes) {
        Some(inner) => inner,
        None => CallOrHashView::Value(Seq::empty()),
    }
}

/// Whether a length is within a bound.
pub fn fits(len: usize, bound: u32) -> (within: bool)
    ensures
        within == (len <= bound),
{
    len <= bound as usize
}

} // verus!
