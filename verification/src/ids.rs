//! Identifiers: fresh UUIDs and reading UUIDs from text.
use vstd::prelude::*;

verus! {

/// The 128-bit value of the UUID that `uuid` reads from the text, if it reads one.
pub uninterp spec fn uuid_parse(s: Seq<char>) -> Option<u128>;

/// Calls `uuid::Uuid::new_v4` and writes it out. Claimed: the text is the
/// hyphenated form, 36 characters, which `uuid` reads back; nothing is
/// claimed of which id it is.
#[verifier::external_body]
pub(crate) fn new_uuid() -> (id: String)
    ensures
        id@.len() == 36,
        uuid_parse(id@) is Some,
{
    uuid::Uuid::new_v4().to_string()
}

/// Calls `uuid::Uuid::parse_str` and hands back the UUID's 128-bit value.
/// Claimed: the result is a function of the text alone.
#[verifier::external_body]
pub(crate) fn parse_uuid(s: &str) -> (r: Option<u128>)
    ensures
        r == uuid_parse(s@),
{
    match uuid::Uuid::parse_str(s) {
        Ok(u) => Some(u.as_u128()),
        Err(_) => None,
    }
}

} // verus!
