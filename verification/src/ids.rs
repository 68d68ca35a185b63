//! Fresh identifiers for new rows.

use vstd::prelude::*;

verus! {

/// Draws a random identifier with `uuid::Uuid::new_v4` and writes it with
/// `to_string`, the hyphenated form of 36 characters. Only the length is
/// claimed: the value is random.
#[verifier::external_body]
pub(crate) fn new_id() -> (r: String)
    ensures
        r@.len() == 36,
{
    uuid::Uuid::new_v4().to_string()
}

} // verus!
