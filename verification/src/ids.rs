//! Fresh identifiers, from `uuid`.

use vstd::prelude::*;

verus! {

/// A random version-4 UUID in its hyphenated form (`Uuid::new_v4().to_string()`).
/// The value is random; nothing is promised of it.
#[verifier::external_body]
pub(crate) fn new_uuid_v4() -> String {
    uuid::Uuid::new_v4().to_string()
}

} // verus!
