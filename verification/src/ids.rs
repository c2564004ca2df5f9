//! Task identifiers are UUIDs, handled as their 128-bit numeric value;
//! parsing and generation go through the `uuid` crate.

use vstd::prelude::*;

verus! {

/// The numeric value that the UUID parser accepts the text as, if any.
pub uninterp spec fn spec_uuid_of(s: Seq<char>) -> Option<u128>;

/// Relies on uuid::Uuid::parse_str (composed with Uuid::as_u128): it parses
/// hexadecimal digits with optional hyphens, and the result depends on the
/// text alone.
#[verifier::external_body]
pub(crate) fn parse_task_id(s: &str) -> (r: Option<u128>)
    ensures
        r == spec_uuid_of(s@),
{
    match uuid::Uuid::parse_str(s) {
        Ok(u) => Some(u.as_u128()),
        Err(_) => None,
    }
}

/// Relies on uuid::Uuid::new_v4 (composed with Uuid::as_u128): a freshly
/// drawn random identifier. Nothing is promised of the value; the store, not
/// the generator, enforces distinctness of stored identifiers.
#[verifier::external_body]
pub(crate) fn fresh_task_id() -> (r: u128) {
    uuid::Uuid::new_v4().as_u128()
}

} // verus!
