//! The wall clock, read in one place.

use vstd::prelude::*;

verus! {

/// Milliseconds since the Unix epoch, `0` if the clock reads before it.
///
/// Calls `SystemTime::now`; nothing is claimed of the value (the clock may
/// jump either way), so callers that compare two readings saturate.
#[verifier::external_body]
pub(crate) fn now_millis() -> u64 {
    match std::time::SystemTime::now().duration_since(std::time::UNIX_EPOCH) {
        Ok(d) => d.as_millis() as u64,
        Err(_) => 0,
    }
}

} // verus!
