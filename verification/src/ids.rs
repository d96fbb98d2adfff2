//! Fresh identifiers.

use vstd::prelude::*;

verus! {

/// Calls `uuid::Uuid::new_v4()` and renders it with `to_string()`. The
/// identifier is random, so the contract claims nothing of the text.
#[verifier::external_body]
pub(crate) fn new_uuid_string() -> (id: String) {
    uuid::Uuid::new_v4().to_string()
}

} // verus!
