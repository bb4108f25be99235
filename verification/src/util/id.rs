//! Fresh identities.

use vstd::prelude::*;

verus! {

/// A fresh identity: `uuid::Uuid::new_v4` in its hyphenated form, which is
/// 36 characters long. Which identity comes out is left to chance.
#[verifier::external_body]
pub(crate) fn new_uuid() -> (r: String)
    ensures
        r@.len() == 36,
{
    ::uuid::Uuid::new_v4().to_string()
}

} // verus!
