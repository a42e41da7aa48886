//! The transport codec: a reversible binary-to-text encoding used to move
//! image bytes over a text-based wire format.

use vstd::prelude::*;

use crate::errors::Error;

verus! {

/// What `base64::encode` returns for a byte sequence: the standard-alphabet
/// encoding with padding. The result depends on the bytes alone.
pub uninterp spec fn b64_of(bytes: Seq<u8>) -> Seq<char>;

/// Relies on `base64::encode`: a pure function of the input bytes.
#[verifier::external_body]
fn b64_encode(bytes: &[u8]) -> (r: String)
    ensures
        r@ == b64_of(bytes@),
{
    base64::encode(bytes)
}

/// Relies on `base64::decode`: on the canonical encoding of any byte
/// sequence it returns exactly that sequence, and it reports an error only
/// on text that encodes no byte sequence.
#[verifier::external_body]
fn b64_decode(text: &str) -> (r: Result<Vec<u8>, Error>)
    ensures
        forall|b: Seq<u8>| text@ == b64_of(b) ==> r is Ok && r->Ok_0@ == b,
        r is Err ==> r->Err_0 == Error::MalformedEncoding,
{
    match base64::decode(text) {
        Ok(v) => Ok(v),
        Err(_) => Err(Error::MalformedEncoding),
    }
}

/// Encode binary payload bytes into their text-safe transport form.
pub fn encode_payload(bytes: &Vec<u8>) -> (r: String)
    ensures
        r@ == b64_of(bytes@),
{
    b64_encode(bytes.as_slice())
}

/// Decode transport text back into binary payload bytes. Text that is the
/// encoding of some byte sequence decodes to exactly that sequence; text
/// that encodes nothing is rejected as a malformed encoding.
pub fn decode_payload(text: &str) -> (r: Result<Vec<u8>, Error>)
    ensures
        forall|b: Seq<u8>| text@ == b64_of(b) ==> r is Ok && r->Ok_0@ == b,
        r is Err ==> r->Err_0 == Error::MalformedEncoding,
{
    b64_decode(text)
}

/// The codec round-trip law: decoding the encoding of any byte sequence,
/// empty or binary alike, yields exactly that sequence, and never fails.
pub fn encode_decode_round_trip(bytes: &Vec<u8>) -> (r: Vec<u8>)
    ensures
        r@ == bytes@,
{
    let text = encode_payload(bytes);
    let decoded = decode_payload(text.as_str());
    decoded.unwrap()
}

} // verus!
