//! Identifier checks.

use vstd::prelude::*;
use uuid::Uuid;

verus! {

/// The canonical (lowercase, hyphenated) text of the UUID that `text` spells,
/// or `None` when `text` is not a UUID.
pub uninterp spec fn uuid_text(text: Seq<char>) -> Option<Seq<char>>;

/// Reads a UUID with `uuid::Uuid::parse_str` and writes it back with
/// `Uuid::to_string`; the result is named by [`uuid_text`].
#[verifier::external_body]
pub(crate) fn parse_uuid(text: &str) -> (r: Option<String>)
    ensures
        r is Some <==> uuid_text(text@) is Some,
        r matches Some(v) ==> uuid_text(text@) == Some(v@),
{
    match Uuid::parse_str(text) {
        Ok(id) => Some(id.to_string()),
        Err(_) => None,
    }
}

/// Whether `text` spells a UUID.
pub open spec fn is_uuid(text: Seq<char>) -> bool {
    uuid_text(text) is Some
}

} // verus!
