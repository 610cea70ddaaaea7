//! Fresh record identifiers.
//!
//! Every stored row is keyed by a random identifier. Randomness cannot be
//! pinned by a contract, so callers state nothing about which identifier a
//! new record received — only, where useful, its length.

use vstd::prelude::*;

verus! {

/// Relies on uuid::Uuid::new_v4 and its Display impl: a random version-4
/// identifier, rendered in the 36-character hyphenated form.
#[verifier::external_body]
pub(crate) fn fresh_id() -> (r: String)
    ensures
        r@.len() == 36,
{
    uuid::Uuid::new_v4().to_string()
}

} // verus!
