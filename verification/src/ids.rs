//! Generation of worker identifiers.

use vstd::prelude::*;

verus! {

/// Relies on `uuid::Uuid::new_v4` and its `Display` form: a freshly drawn
/// random identifier, rendered as the 36-character hyphenated text. The draw
/// is random, so nothing relates two calls; only the length is fixed.
#[verifier::external_body]
pub(crate) fn fresh_id() -> (r: String)
    ensures
        r@.len() == 36,
{
    uuid::Uuid::new_v4().to_string()
}

} // verus!
