//! The wall clock, read at transaction and block construction.

use vstd::prelude::*;

verus! {

/// Relies on std::time::SystemTime::now: seconds since the Unix epoch, zero
/// if the clock reads earlier than the epoch.  Nothing can be promised of the
/// value itself.
#[verifier::external_body]
pub(crate) fn now_seconds() -> u64 {
    std::time::SystemTime::now()
        .duration_since(std::time::UNIX_EPOCH)
        .unwrap_or_default()
        .as_secs()
}

} // verus!
