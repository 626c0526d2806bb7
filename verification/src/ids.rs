//! Fresh identifiers for episodes and session tokens.

use vstd::prelude::*;

verus! {

/// A fresh random identifier.
///
/// Relies on `uuid::Uuid::new_v4` and its `Display` form: a random
/// version-4 uuid rendered hyphenated, which is 36 characters long. The
/// value is random, so nothing more is promised of it.
#[verifier::external_body]
pub(crate) fn fresh_uuid() -> (r: String)
    ensures
        r@.len() == 36,
{
    uuid::Uuid::new_v4().to_string()
}

} // verus!
