//! The wall clock, taken on trust: nothing can be promised about what it
//! reads.

use vstd::prelude::*;

verus! {

/// Relies on chrono::Utc::now, which reads the system clock, and
/// DateTime::timestamp, the seconds since the Unix epoch; the cast keeps the
/// bit pattern for dates before 1970, as the caller it was written for did.
#[verifier::external_body]
pub fn now_unix_seconds() -> u64 {
    chrono::Utc::now().timestamp() as u64
}

} // verus!
