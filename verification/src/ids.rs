//! Random identifiers.

use vstd::prelude::*;

verus! {

/// `Uuid::new_v4().to_string()` gives a random UUID in its hyphenated form,
/// which is 36 characters long. The call aborts if the operating system
/// cannot supply random bytes.
#[verifier::external_body]
pub(crate) fn random_uuid() -> (id: String)
    ensures
        id@.len() == 36,
{
    uuid::Uuid::new_v4().to_string()
}

} // verus!
