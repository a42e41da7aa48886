//! Listing and picture identifiers: opaque 128-bit values drawn server-side,
//! with a parser for their textual form in request paths.

use vstd::prelude::*;

use crate::errors::Error;

verus! {

/// What `uuid::Uuid::parse_str` accepts: the 128-bit value a well-formed
/// textual identifier denotes, if any. Depends on the characters alone.
pub uninterp spec fn uuid_of_text(text: Seq<char>) -> Option<u128>;

/// Relies on `uuid::Uuid::new_v4`: a freshly drawn random identifier.
/// Nothing is promised of the value; uniqueness is checked by the store.
#[verifier::external_body]
pub(crate) fn fresh_id() -> u128 {
    uuid::Uuid::new_v4().as_u128()
}

/// Relies on `uuid::Uuid::parse_str` and `Uuid::as_u128`: whether the text
/// parses, and the value it denotes, depend on the characters alone.
#[verifier::external_body]
fn parse_uuid_text(text: &str) -> (r: Option<u128>)
    ensures
        r == uuid_of_text(text@),
{
    match uuid::Uuid::parse_str(text) {
        Ok(u) => Some(u.as_u128()),
        Err(_) => None,
    }
}

/// Parse the textual form of a listing identifier, rejecting text that is
/// not a well-formed identifier.
pub fn parse_listing_id(text: &str) -> (r: Result<u128, Error>)
    ensures
        r is Ok <==> uuid_of_text(text@) is Some,
        r is Ok ==> uuid_of_text(text@) == Some(r->Ok_0),
        r is Err ==> r->Err_0 == Error::InvalidIdentifierFormat,
{
    match parse_uuid_text(text) {
        Some(v) => Ok(v),
        None => Err(Error::InvalidIdentifierFormat),
    }
}

} // verus!
