//! The wall clock, as far as the library needs it.
use vstd::prelude::*;

verus! {

/// The current instant in UTC as an RFC 3339 string: `chrono::Utc::now`
/// followed by `DateTime::to_rfc3339`. The result changes from call to call,
/// so nothing is claimed about it. `Utc::now` panics when the system clock
/// stands before the Unix epoch or beyond the dates chrono can represent.
#[verifier::external_body]
pub(crate) fn capture_timestamp() -> (stamp: String) {
    chrono::Utc::now().to_rfc3339()
}

} // verus!
